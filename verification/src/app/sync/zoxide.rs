//! Registering synced repositories with zoxide.
//!
//! One query lists what zoxide already knows; each repository that is not
//! known yet is added; one final query confirms every addition. A repository
//! whose addition zoxide did not keep is reported as failed, never as added.

use vstd::prelude::*;
use crate::app::entry::{one_entry_each, Entry};
use crate::error::AppError;
use crate::paths::{normalize, normalize_lexically};
use crate::repositories::RepositoryDefinition;
use crate::zoxide::ZoxideClient;
use super::report::{Outcome, Plan, ZoxideEntry, ZoxideOutcome, ZoxideReport};

verus! {

/// Which entries a zoxide pass concerns.
#[derive(Debug, Clone, Copy, PartialEq, Eq)]
pub enum Selection {
    /// Entries a dry run plans to clone or fetch.
    Planned,
    /// Entries that ended with a repository on disk: cloned, updated or current.
    Present,
}

pub open spec fn selected(outcome: Outcome, selection: Selection) -> bool {
    match selection {
        Selection::Planned => outcome matches Outcome::Planned(Plan::Clone { .. })
            || outcome matches Outcome::Planned(Plan::Fetch { .. }),
        Selection::Present => outcome is Cloned || outcome is Updated
            || outcome is UpdatedButRestorationFailed || outcome is Current,
    }
}

/// The indices below `n` whose entries are selected, in order.
pub open spec fn selected_indices(entries: Seq<Entry<Outcome>>, n: int, selection: Selection) -> Seq<
    int,
>
    decreases n,
{
    if n <= 0 {
        Seq::empty()
    } else {
        let prev = selected_indices(entries, n - 1, selection);
        if selected(entries[n - 1].outcome, selection) {
            prev.push(n - 1)
        } else {
            prev
        }
    }
}

pub proof fn lemma_selected_indices_bounded(entries: Seq<Entry<Outcome>>, n: int, selection: Selection)
    ensures
        forall|k: int|
            0 <= k < selected_indices(entries, n, selection).len() ==> 0 <= #[trigger] selected_indices(
                entries,
                n,
                selection,
            )[k] < n,
        selected_indices(entries, n, selection).len() <= if n < 0 { 0 } else { n },
    decreases n,
{
    if n > 0 {
        lemma_selected_indices_bounded(entries, n - 1, selection);
    }
}

fn is_selected(outcome: &Outcome, selection: Selection) -> (res: bool)
    ensures
        res == selected(*outcome, selection),
{
    match selection {
        Selection::Planned => match outcome {
            Outcome::Planned(_) => true,
            _ => false,
        },
        Selection::Present => match outcome {
            Outcome::Cloned { .. } | Outcome::Updated { .. }
            | Outcome::UpdatedButRestorationFailed { .. } | Outcome::Current { .. } => true,
            _ => false,
        },
    }
}

/// The positions of the selected entries among the first `n`, in order.
pub fn selected_positions(entries: &Vec<Entry<Outcome>>, n: usize, selection: Selection) -> (out:
    Vec<usize>)
    requires
        n <= entries@.len(),
    ensures
        out@.len() == selected_indices(entries@, n as int, selection).len(),
        forall|k: int|
            0 <= k < out@.len() ==> out@[k] as int == selected_indices(entries@, n as int, selection)[k],
        forall|k: int| 0 <= k < out@.len() ==> out@[k] < n,
{
    let mut out: Vec<usize> = Vec::new();
    let mut i: usize = 0;
    while i < n
        invariant
            i <= n <= entries@.len(),
            out@.len() == selected_indices(entries@, i as int, selection).len(),
            forall|k: int|
                0 <= k < out@.len() ==> out@[k] as int == selected_indices(entries@, i as int, selection)[k],
            forall|k: int| 0 <= k < out@.len() ==> out@[k] < i,
        decreases n - i,
    {
        if is_selected(&entries[i].outcome, selection) {
            out.push(i);
        }
        i = i + 1;
    }
    out
}

/// The report of a dry run: one `WouldRegister` per entry planned for a
/// clone or a fetch, in entry order.
pub open spec fn dry_run_report(entries: Seq<Entry<Outcome>>, z: ZoxideReport) -> bool {
    let targets = selected_indices(entries, entries.len() as int, Selection::Planned);
    &&& z.unavailable is None
    &&& z.entries@.len() == targets.len()
    &&& forall|k: int|
        0 <= k < targets.len() ==> (#[trigger] z.entries@[k]).repository@ == entries[targets[k]].repository@
            && z.entries@[k].outcome == ZoxideOutcome::WouldRegister
}

/// What `dry_run` gives for one entry per repository is the dry run's report.
pub proof fn lemma_dry_run_report(repositories: Seq<RepositoryDefinition>, entries: Seq<Entry<Outcome>>, z: ZoxideReport)
    requires
        one_entry_each(entries, repositories),
        ({
            let targets = selected_indices(entries, entries.len() as int, Selection::Planned);
            &&& z.unavailable is None
            &&& z.entries@.len() == targets.len()
            &&& forall|k: int|
                0 <= k < targets.len() ==> (#[trigger] z.entries@[k]).repository@
                    == repositories[targets[k]].display_path_view() && z.entries@[k].outcome
                    == ZoxideOutcome::WouldRegister
        }),
    ensures
        dry_run_report(entries, z),
{
    let targets = selected_indices(entries, entries.len() as int, Selection::Planned);
    lemma_selected_indices_bounded(entries, entries.len() as int, Selection::Planned);
    assert forall|k: int| 0 <= k < targets.len() implies (#[trigger] z.entries@[k]).repository@
        == entries[targets[k]].repository@ by {
        assert(0 <= targets[k] < entries.len());
        assert(entries[targets[k]].repository@ == repositories[targets[k]].display_path_view());
    }
}

/// The repositories a dry run would register: every one planned for a clone
/// or a fetch.
pub fn dry_run(repositories: &[RepositoryDefinition], entries: &Vec<Entry<Outcome>>) -> (r:
    ZoxideReport)
    ensures
        ({
            let n = if repositories@.len() < entries@.len() {
                repositories@.len() as int
            } else {
                entries@.len() as int
            };
            let targets = selected_indices(entries@, n, Selection::Planned);
            &&& r.unavailable is None
            &&& r.entries@.len() == targets.len()
            &&& forall|k: int|
                0 <= k < targets.len() ==> (#[trigger] r.entries@[k]).repository@
                    == repositories@[targets[k]].display_path_view() && r.entries@[k].outcome
                    == ZoxideOutcome::WouldRegister
        }),
{
    let n = if repositories.len() < entries.len() {
        repositories.len()
    } else {
        entries.len()
    };
    let targets = selected_positions(entries, n, Selection::Planned);
    let mut out: Vec<ZoxideEntry> = Vec::new();
    let mut k: usize = 0;
    while k < targets.len()
        invariant
            n <= repositories@.len(),
            n <= entries@.len(),
            k <= targets@.len(),
            targets@.len() == selected_indices(entries@, n as int, Selection::Planned).len(),
            forall|j: int|
                0 <= j < targets@.len() ==> targets@[j] as int == selected_indices(
                    entries@,
                    n as int,
                    Selection::Planned,
                )[j],
            forall|j: int| 0 <= j < targets@.len() ==> targets@[j] < n,
            out@.len() == k,
            forall|j: int|
                0 <= j < k ==> (#[trigger] out@[j]).repository@ == repositories@[targets@[j] as int].display_path_view()
                    && out@[j].outcome == ZoxideOutcome::WouldRegister,
        decreases targets@.len() - k,
    {
        let index = targets[k];
        let repository = String::from_str(repositories[index].display_path());
        out.push(ZoxideEntry::new(repository, ZoxideOutcome::WouldRegister));
        k = k + 1;
    }
    ZoxideReport::new(out)
}

/// The message recorded for a failed zoxide command: the error's own text.
pub fn failure_message(err: AppError) -> (m: String)
    ensures
        m@ == err.text(),
{
    err.message()
}

/// Whether `paths` holds `path`.
pub open spec fn holds(paths: Seq<String>, path: Seq<char>) -> bool {
    exists|j: int| 0 <= j < paths.len() && (#[trigger] paths[j])@ == path
}

pub fn contains_path(paths: &Vec<String>, path: &String) -> (res: bool)
    ensures
        res == holds(paths@, path@),
{
    let mut j: usize = 0;
    while j < paths.len()
        invariant
            j <= paths@.len(),
            forall|i: int| 0 <= i < j ==> (#[trigger] paths@[i])@ != path@,
        decreases paths@.len() - j,
    {
        if paths[j] == *path {
            return true;
        }
        j = j + 1;
    }
    false
}

/// What to do for one repository once zoxide's current entries are known.
#[derive(Debug, Clone, PartialEq, Eq)]
pub enum TargetStep {
    /// The repository's outcome is settled without adding it.
    Settled(ZoxideOutcome),
    /// The repository must be added under this path.
    Add(String),
}

/// Classifies a repository against the entries zoxide already holds: a path
/// that could not be resolved fails, a known path is already registered, and
/// any other path must be added.
pub fn classify_target(registered: &Vec<String>, path: Result<String, String>) -> (step: TargetStep)
    ensures
        match path {
            Err(m) => step == TargetStep::Settled(ZoxideOutcome::Failed(m)),
            Ok(p) => if holds(registered@, p@) {
                step == TargetStep::Settled(ZoxideOutcome::AlreadyRegistered)
            } else {
                step == TargetStep::Add(p)
            },
        },
{
    match path {
        Err(m) => TargetStep::Settled(ZoxideOutcome::Failed(m)),
        Ok(p) => if contains_path(registered, &p) {
            TargetStep::Settled(ZoxideOutcome::AlreadyRegistered)
        } else {
            TargetStep::Add(p)
        },
    }
}

pub open spec fn not_kept_text() -> Seq<char> {
    "zoxide did not register the repository"@
}

/// The outcome of an added repository once the final entries are known:
/// added when zoxide lists its path, failed otherwise.
pub fn confirm_addition(final_paths: &Vec<String>, path: &String) -> (o: ZoxideOutcome)
    ensures
        holds(final_paths@, path@) ==> o == ZoxideOutcome::Added,
        !holds(final_paths@, path@) ==> (o matches ZoxideOutcome::Failed(m) && m@
            == not_kept_text()),
{
    if contains_path(final_paths, path) {
        ZoxideOutcome::Added
    } else {
        ZoxideOutcome::Failed(String::from_str("zoxide did not register the repository"))
    }
}

pub open spec fn confirmation_view(c: Result<Vec<String>, String>) -> Result<Seq<String>, Seq<char>> {
    match c {
        Ok(paths) => Ok(paths@),
        Err(m) => Err(m@),
    }
}

/// What zoxide answered while registering, as the registration reads it.
/// `paths` and `adds` hold one item per target; an add answer is read only
/// for a target that had to be added, and the final listing only when some
/// target was added.
pub struct ZoxideAnswers {
    /// Whether zoxide can be run, or its error's message.
    pub available: Result<(), String>,
    /// The paths zoxide lists, in the form they are compared in.
    pub listing: Result<Vec<String>, String>,
    /// Each target's path as zoxide knows it, or why it has none.
    pub paths: Vec<Result<String, String>>,
    /// The answer to adding each target.
    pub adds: Vec<Result<(), String>>,
    /// The paths zoxide lists once the additions are made.
    pub confirmation: Result<Vec<String>, String>,
}

/// The outcome of one target: a path that could not be resolved fails with
/// its message; a listed path is already registered; otherwise a failed add
/// fails with the add's message, and a successful one is added when the
/// final listing holds the path, fails with that listing's message when it
/// could not be read, and fails as not kept otherwise.
pub open spec fn target_outcome(
    outcome: ZoxideOutcome,
    registered: Seq<String>,
    path: Result<String, String>,
    add: Result<(), String>,
    confirmation: Result<Seq<String>, Seq<char>>,
) -> bool {
    match path {
        Err(m) => outcome == ZoxideOutcome::Failed(m),
        Ok(p) => if holds(registered, p@) {
            outcome == ZoxideOutcome::AlreadyRegistered
        } else {
            match add {
                Err(m) => outcome == ZoxideOutcome::Failed(m),
                Ok(()) => match confirmation {
                    Ok(listed) => if holds(listed, p@) {
                        outcome == ZoxideOutcome::Added
                    } else {
                        outcome matches ZoxideOutcome::Failed(m) && m@ == not_kept_text()
                    },
                    Err(message) => outcome matches ZoxideOutcome::Failed(m) && m@ == message,
                },
            }
        },
    }
}

/// Whether target `k` has to be added: its path resolved, zoxide does not
/// list it, and the add succeeded.
pub open spec fn added_target(registered: Seq<String>, path: Result<String, String>, add: Result<(), String>) -> bool {
    path matches Ok(p) && !holds(registered, p@) && add is Ok
}

/// The report for the targets shown as `displays`, from zoxide's answers:
/// empty when there is no target; unavailable, with the message, when zoxide
/// cannot be run; every target failed with the listing's message when the
/// listing cannot be read; otherwise one outcome per target, in order.
pub open spec fn report_from(r: ZoxideReport, displays: Seq<Seq<char>>, a: ZoxideAnswers) -> bool {
    if displays.len() == 0 {
        r.entries@.len() == 0 && r.unavailable is None
    } else {
        match a.available {
            Err(m) => r.unavailable == Some(m) && r.entries@.len() == 0,
            Ok(()) => {
                &&& r.unavailable is None
                &&& r.entries@.len() == displays.len()
                &&& forall|k: int|
                    0 <= k < displays.len() ==> (#[trigger] r.entries@[k]).repository@ == displays[k]
                        && match a.listing {
                        Err(m) => r.entries@[k].outcome == ZoxideOutcome::Failed(m),
                        Ok(registered) => target_outcome(
                            r.entries@[k].outcome,
                            registered@,
                            a.paths@[k],
                            a.adds@[k],
                            confirmation_view(a.confirmation),
                        ),
                    }
            },
        }
    }
}

fn copy_text_result(r: &Result<String, String>) -> (c: Result<String, String>)
    ensures
        c == *r,
{
    match r {
        Ok(t) => Ok(t.clone()),
        Err(m) => Err(m.clone()),
    }
}

/// The outcome of one target from zoxide's answers.
pub fn target_outcome_of(
    registered: &Vec<String>,
    path: &Result<String, String>,
    add: &Result<(), String>,
    confirmation: &Result<Vec<String>, String>,
) -> (o: ZoxideOutcome)
    ensures
        target_outcome(o, registered@, *path, *add, confirmation_view(*confirmation)),
{
    match classify_target(registered, copy_text_result(path)) {
        TargetStep::Settled(outcome) => outcome,
        TargetStep::Add(p) => match add {
            Err(m) => ZoxideOutcome::Failed(m.clone()),
            Ok(()) => match confirmation {
                Ok(listed) => confirm_addition(listed, &p),
                Err(m) => ZoxideOutcome::Failed(m.clone()),
            },
        },
    }
}

/// The report zoxide's answers give for the targets shown as `displays`.
pub fn report_from_answers(displays: &Vec<String>, answers: &ZoxideAnswers) -> (r: ZoxideReport)
    requires
        answers.paths@.len() == displays@.len(),
        answers.adds@.len() == displays@.len(),
    ensures
        report_from(r, displays.deep_view(), *answers),
{
    if displays.len() == 0 {
        return ZoxideReport::new(Vec::new());
    }
    match &answers.available {
        Err(m) => {
            return ZoxideReport::unavailable(m.clone());
        },
        Ok(()) => {},
    }
    let mut out: Vec<ZoxideEntry> = Vec::new();
    let mut k: usize = 0;
    while k < displays.len()
        invariant
            k <= displays@.len(),
            answers.paths@.len() == displays@.len(),
            answers.adds@.len() == displays@.len(),
            out@.len() == k,
            forall|j: int|
                0 <= j < k ==> (#[trigger] out@[j]).repository@ == displays.deep_view()[j] && match answers.listing {
                    Err(m) => out@[j].outcome == ZoxideOutcome::Failed(m),
                    Ok(registered) => target_outcome(
                        out@[j].outcome,
                        registered@,
                        answers.paths@[j],
                        answers.adds@[j],
                        confirmation_view(answers.confirmation),
                    ),
                },
        decreases displays@.len() - k,
    {
        let outcome = match &answers.listing {
            Err(m) => ZoxideOutcome::Failed(m.clone()),
            Ok(registered) => target_outcome_of(
                registered,
                &answers.paths[k],
                &answers.adds[k],
                &answers.confirmation,
            ),
        };
        out.push(ZoxideEntry::new(displays[k].clone(), outcome));
        k = k + 1;
    }
    ZoxideReport::new(out)
}

/// The path zoxide knows a directory by: resolved through the file system
/// when zoxide resolves symbolic links, lexically normalized otherwise.
pub fn zoxide_path<Z: ZoxideClient>(zoxide: &Z, path: &str, resolve_symlinks: bool) -> (res: Result<
    String,
    String,
>)
    ensures
        !resolve_symlinks ==> (res matches Ok(p) && p@ == normalize(path@)),
{
    if resolve_symlinks {
        zoxide.canonicalize(path)
    } else {
        Ok(normalize_lexically(path))
    }
}

/// The paths of zoxide's entries in the form they are compared in; entries
/// whose path cannot be resolved are left out.
pub fn registered_paths<Z: ZoxideClient>(zoxide: &Z, paths: Vec<String>, resolve_symlinks: bool) -> (out:
    Vec<String>)
    ensures
        out@.len() <= paths@.len(),
        !resolve_symlinks ==> out@.len() == paths@.len() && forall|k: int|
            0 <= k < out@.len() ==> (#[trigger] out@[k])@ == normalize(paths@[k]@),
{
    let mut out: Vec<String> = Vec::new();
    let mut i: usize = 0;
    while i < paths.len()
        invariant
            i <= paths@.len(),
            out@.len() <= i,
            !resolve_symlinks ==> out@.len() == i && forall|k: int|
                0 <= k < out@.len() ==> (#[trigger] out@[k])@ == normalize(paths@[k]@),
        decreases paths@.len() - i,
    {
        match zoxide_path(zoxide, paths[i].as_str(), resolve_symlinks) {
            Ok(p) => out.push(p),
            Err(_) => {},
        }
        i = i + 1;
    }
    out
}

/// The repositories registration concerns: those whose entry ended on disk.
pub open spec fn present_targets(repositories: Seq<RepositoryDefinition>, entries: Seq<Entry<Outcome>>) -> Seq<int> {
    let n = if repositories.len() < entries.len() {
        repositories.len() as int
    } else {
        entries.len() as int
    };
    selected_indices(entries, n, Selection::Present)
}

/// How the repositories at `targets` are shown.
pub open spec fn displays_of(repositories: Seq<RepositoryDefinition>, targets: Seq<int>) -> Seq<Seq<char>> {
    Seq::new(targets.len(), |k: int| repositories[targets[k]].display_path_view())
}

/// `n` answers for questions that were not asked.
fn unasked(n: usize) -> (r: (Vec<Result<String, String>>, Vec<Result<(), String>>))
    ensures
        r.0@.len() == n,
        r.1@.len() == n,
{
    let mut paths: Vec<Result<String, String>> = Vec::new();
    let mut adds: Vec<Result<(), String>> = Vec::new();
    let mut k: usize = 0;
    while k < n
        invariant
            k <= n,
            paths@.len() == k,
            adds@.len() == k,
        decreases n - k,
    {
        paths.push(Err(String::new()));
        adds.push(Ok(()));
        k = k + 1;
    }
    (paths, adds)
}

/// Whether zoxide runs, in the answers, is what `zoxide` answered when
/// asked, its error given by the error's text.
pub open spec fn availability_observed<Z: ZoxideClient>(zoxide: &Z, a: ZoxideAnswers) -> bool {
    exists|answer: Result<(), AppError>| #[trigger] zoxide.runs(answer) && match answer {
        Ok(()) => a.available is Ok,
        Err(e) => a.available matches Err(m) && m@ == e.text(),
    }
}

/// Registers the repositories that ended on disk (cloned, updated or current)
/// with zoxide, and reports one outcome per such repository, in order.
///
/// The answers are gathered first: whether zoxide runs, what it lists, each
/// repository's path, each add that is needed, and one final listing when
/// something was added; the report is then what `report_from_answers` makes
/// of them. When no repository qualifies, nothing is asked of zoxide.
pub fn register<Z: ZoxideClient>(
    zoxide: &Z,
    repositories: &[RepositoryDefinition],
    entries: &Vec<Entry<Outcome>>,
) -> (r: ZoxideReport)
    ensures
        exists|answers: ZoxideAnswers|
            #![trigger report_from(r, displays_of(repositories@, present_targets(repositories@, entries@)), answers)]
            answers.paths@.len() == present_targets(repositories@, entries@).len() && report_from(
                r,
                displays_of(repositories@, present_targets(repositories@, entries@)),
                answers,
            ) && (present_targets(repositories@, entries@).len() > 0 ==> availability_observed(zoxide, answers)),
{
    let n = if repositories.len() < entries.len() {
        repositories.len()
    } else {
        entries.len()
    };
    let targets = selected_positions(entries, n, Selection::Present);
    let ghost target_seq = selected_indices(entries@, n as int, Selection::Present);
    let mut displays: Vec<String> = Vec::new();
    let mut k: usize = 0;
    while k < targets.len()
        invariant
            n <= repositories@.len(),
            k <= targets@.len(),
            targets@.len() == target_seq.len(),
            forall|j: int| 0 <= j < targets@.len() ==> targets@[j] as int == target_seq[j],
            forall|j: int| 0 <= j < targets@.len() ==> targets@[j] < n,
            displays@.len() == k,
            forall|j: int| 0 <= j < k ==> (#[trigger] displays@[j])@ == repositories@[target_seq[j]].display_path_view(),
        decreases targets@.len() - k,
    {
        displays.push(String::from_str(repositories[targets[k]].display_path()));
        k = k + 1;
    }
    let ghost shown = Seq::new(target_seq.len(), |k: int| repositories@[target_seq[k]].display_path_view());
    assert(displays.deep_view() =~= shown);
    let ghost mut asked: Result<(), AppError> = arbitrary();
    let answers = if targets.len() == 0 {
        let (paths, adds) = unasked(0);
        ZoxideAnswers { available: Ok(()), listing: Ok(Vec::new()), paths, adds, confirmation: Ok(Vec::new()) }
    } else {
        let available = zoxide.verify_available();
        proof { asked = available; }
        match available {
            Err(err) => {
                let (paths, adds) = unasked(targets.len());
                ZoxideAnswers {
                    available: Err(failure_message(err)),
                    listing: Ok(Vec::new()),
                    paths,
                    adds,
                    confirmation: Ok(Vec::new()),
                }
            },
            Ok(()) => {
                let resolve_symlinks_known = zoxide.resolve_symlinks();
                match zoxide.entries() {
                Err(err) => {
                    let (paths, adds) = unasked(targets.len());
                    ZoxideAnswers {
                        available: Ok(()),
                        listing: Err(failure_message(err)),
                        paths,
                        adds,
                        confirmation: Ok(Vec::new()),
                    }
                },
                Ok(listed) => {
                    let registered = registered_paths(zoxide, listed, resolve_symlinks_known);
                    let mut paths: Vec<Result<String, String>> = Vec::new();
                    let mut adds: Vec<Result<(), String>> = Vec::new();
                    let mut pending = false;
                    let mut k: usize = 0;
                    while k < targets.len()
                        invariant
                            n <= repositories@.len(),
                            k <= targets@.len(),
                            targets@.len() == target_seq.len(),
                            forall|j: int| 0 <= j < targets@.len() ==> targets@[j] as int == target_seq[j],
                            forall|j: int| 0 <= j < targets@.len() ==> targets@[j] < n,
                            paths@.len() == k,
                            adds@.len() == k,
                        decreases targets@.len() - k,
                    {
                        let path = zoxide_path(zoxide, repositories[targets[k]].path(), resolve_symlinks_known);
                        let add = match classify_target(&registered, copy_text_result(&path)) {
                            TargetStep::Settled(_) => Ok(()),
                            TargetStep::Add(p) => match zoxide.add(p.as_str()) {
                                Ok(()) => {
                                    pending = true;
                                    Ok(())
                                },
                                Err(err) => Err(failure_message(err)),
                            },
                        };
                        paths.push(path);
                        adds.push(add);
                        k = k + 1;
                    }
                    let confirmation = if pending {
                        match zoxide.entries() {
                            Ok(listed) => Ok(registered_paths(zoxide, listed, resolve_symlinks_known)),
                            Err(err) => Err(failure_message(err)),
                        }
                    } else {
                        Ok(Vec::new())
                    };
                    ZoxideAnswers { available: Ok(()), listing: Ok(registered), paths, adds, confirmation }
                },
                }
            },
        }
    };
    proof {
        if targets.len() > 0 {
            assert(zoxide.runs(asked));
            assert(availability_observed(zoxide, answers));
        }
    }
    let r = report_from_answers(&displays, &answers);
    assert(report_from(r, shown, answers));
    proof {
        let targets_e = selected_indices(entries@, n as int, Selection::Present);
        let displays_e = Seq::new(targets_e.len(), |k: int| repositories@[targets_e[k]].display_path_view());
        assert(displays_e =~= shown);
        assert(answers.paths@.len() == targets_e.len());
        assert(report_from(r, displays_e, answers));
        assert(displays_of(repositories@, targets_e) =~= shown);
        assert(targets_e == present_targets(repositories@, entries@));
        assert(report_from(r, displays_of(repositories@, targets_e), answers));
    }
    r
}


/// Registration reports zoxide unavailable exactly when some repository
/// ended on disk and zoxide cannot be run; such a report lists no entry.
pub proof fn law_unavailable_only_for_targets(r: ZoxideReport, displays: Seq<Seq<char>>, a: ZoxideAnswers)
    requires
        report_from(r, displays, a),
    ensures
        r.unavailable is Some <==> (displays.len() > 0 && a.available is Err),
        r.unavailable matches Some(m) ==> a.available == Err::<(), String>(m) && r.entries@.len() == 0,
        displays.len() == 0 ==> r.entries@.len() == 0,
{
}

/// When zoxide can be run, registration reports one entry per repository
/// that ended on disk, in order, each named by its display path, and none of
/// them is a plan.
pub proof fn law_one_registration_each(r: ZoxideReport, displays: Seq<Seq<char>>, a: ZoxideAnswers)
    requires
        report_from(r, displays, a),
        a.available is Ok,
    ensures
        r.entries@.len() == displays.len(),
        forall|k: int| 0 <= k < displays.len() ==> (#[trigger] r.entries@[k]).repository@ == displays[k],
        forall|k: int| 0 <= k < r.entries@.len() ==> (#[trigger] r.entries@[k]).outcome != ZoxideOutcome::WouldRegister,
{
    assert forall|k: int| 0 <= k < r.entries@.len() implies (#[trigger] r.entries@[k]).outcome != ZoxideOutcome::WouldRegister by {
        assert(r.entries@[k].repository@ == displays[k]);
    }
}

/// When some repository ended on disk, registration is reported unavailable
/// exactly when zoxide answered that it cannot be run, with that error's
/// text, and then lists no entry.
pub proof fn law_unavailable_follows_zoxide<Z: ZoxideClient>(zoxide: &Z, r: ZoxideReport, displays: Seq<Seq<char>>, a: ZoxideAnswers)
    requires
        report_from(r, displays, a),
        displays.len() > 0,
        availability_observed(zoxide, a),
    ensures
        exists|answer: Result<(), AppError>| #[trigger] zoxide.runs(answer) && match answer {
            Ok(()) => r.unavailable is None,
            Err(e) => r.unavailable matches Some(m) && m@ == e.text() && r.entries@.len() == 0,
        },
{
    let answer = choose|answer: Result<(), AppError>| #[trigger] zoxide.runs(answer) && match answer {
        Ok(()) => a.available is Ok,
        Err(e) => a.available matches Err(m) && m@ == e.text(),
    };
    assert(zoxide.runs(answer));
}

} // verus!
