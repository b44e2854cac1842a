//! The `sync` use case: clone what is missing, fast-forward what exists, and
//! register the results with zoxide.

use vstd::prelude::*;

pub mod check;
pub mod prepare;
pub mod report;
pub mod update;
pub mod zoxide;

pub use report::{
    change_rank, BlockedReason, Outcome, PhaseSummaries, Plan, Report, SkippedReason, ZoxideEntry,
    ZoxideOutcome, ZoxideReport,
};

use crate::app::context::{AppContext, CacheStore, Clock};
use crate::app::entry::{complete_entries, one_entry_each, slot_names, Entry};
use crate::app::events::{EventSink, PhaseSummary};
use crate::app::refresh::{empty_slots, selected_repositories};
use crate::config::load::{ConfigFiles, load, resolved_from_valid_tree};
use crate::error::AppError;
use crate::cache::Outcome as CacheOutcome;
use crate::git::{GitClient, GitUpdateOutcome};
use crate::repositories::{picked, select_repositories, selection_of, RepositoryDefinition};
use crate::zoxide::ZoxideClient;
use check::{check_observed, check_repository, checked, CheckAnswers, Decision};
use prepare::{
    clone_completed, clone_completion, fetch_completed, fetch_completion, seed_candidates, seed_warning,
    Completion,
};
use update::update_result;
use report::{count_tally, in_tally, leaves_untouched, slot_tally, tally_of, Tally};

verus! {

/// The phases of a sync run, in the order they run.
#[derive(Debug, Clone, Copy, PartialEq, Eq)]
pub enum Phase {
    Checking,
    Preparing,
    Updating,
    Seeding,
}

pub open spec fn phase_text(phase: Phase) -> Seq<char> {
    match phase {
        Phase::Checking => "Checking repositories..."@,
        Phase::Preparing => "Preparing repositories..."@,
        Phase::Updating => "Updating repositories..."@,
        Phase::Seeding => "Seeding the clone cache..."@,
    }
}

impl Phase {
    /// The progress line shown while the phase runs.
    pub fn message(self) -> (m: &'static str)
        ensures
            m@ == phase_text(self),
    {
        match self {
            Phase::Checking => "Checking repositories...",
            Phase::Preparing => "Preparing repositories...",
            Phase::Updating => "Updating repositories...",
            Phase::Seeding => "Seeding the clone cache...",
        }
    }
}

/// How a sync run behaves.
#[derive(Debug, Clone, Copy, PartialEq, Eq)]
pub struct SyncOptions {
    pub dry_run: bool,
    pub register_zoxide: bool,
}

impl SyncOptions {
    pub fn new(dry_run: bool, register_zoxide: bool) -> (o: SyncOptions)
        ensures
            o.dry_run == dry_run,
            o.register_zoxide == register_zoxide,
    {
        SyncOptions { dry_run, register_zoxide }
    }

    pub fn dry_run(self) -> (b: bool)
        ensures
            b == self.dry_run,
    {
        self.dry_run
    }

    pub fn register_zoxide(self) -> (b: bool)
        ensures
            b == self.register_zoxide,
    {
        self.register_zoxide
    }
}

/// A repository waiting for the prepare phase.
pub enum Preparation {
    Clone { index: usize },
    Fetch { index: usize, common_directory: String, default_branch: String },
}

/// A fetched repository waiting for the update phase.
pub struct Update {
    pub index: usize,
    pub common_directory: String,
    pub default_branch: String,
}

/// Every filled slot holds an outcome that changed nothing.
pub open spec fn untouched_slots(slots: Seq<Option<Entry<Outcome>>>) -> bool {
    forall|j: int|
        #![trigger slots[j]]
        0 <= j < slots.len() ==> match slots[j] {
            Some(e) => leaves_untouched(e.outcome),
            None => true,
        }
}

/// No filled slot holds an entry planned for a clone or a fetch.
pub open spec fn no_planned_slots(slots: Seq<Option<Entry<Outcome>>>) -> bool {
    forall|j: int|
        #![trigger slots[j]]
        0 <= j < slots.len() ==> match slots[j] {
            Some(e) => !(e.outcome is Planned),
            None => true,
        }
}

pub open spec fn prep_index(p: Preparation) -> usize {
    match p {
        Preparation::Clone { index } => index,
        Preparation::Fetch { index, .. } => index,
    }
}

/// No filled slot reports an update.
pub open spec fn no_updated_slots(slots: Seq<Option<Entry<Outcome>>>) -> bool {
    forall|j: int|
        #![trigger slots[j]]
        0 <= j < slots.len() ==> match slots[j] {
            Some(e) => !in_tally(e.outcome, Tally::Updated),
            None => true,
        }
}

/// Two entries that agree but for a note added after the fact.
pub open spec fn same_entry(e: Entry<Outcome>, x: Entry<Outcome>) -> bool {
    &&& e.repository == x.repository
    &&& e.outcome == x.outcome
    &&& e.blocked_details == x.blocked_details
}

/// The check decided `d` for the repository on some answers `git` gave.
pub open spec fn was_checked<G: GitClient>(git: &G, repository: RepositoryDefinition, dry_run: bool, d: Decision) -> bool {
    exists|a: CheckAnswers| #[trigger] checked(repository, dry_run, a, Ok::<Decision, AppError>(d))
        && check_observed(git, repository, dry_run, a)
}

/// The entry a decision comes to: a final decision is its own entry; a clone
/// is what `clone_completion` makes of the cache's answer to placing the
/// repository; a fetch is what `fetch_completion` makes of Git's failed
/// fetch, or else the outcome that `update_outcome` gives for Git's answer
/// to the fast-forward.
pub open spec fn settled<G: GitClient, C: CacheStore>(git: &G, cache: &C, repository: RepositoryDefinition, d: Decision, e: Entry<Outcome>) -> bool {
    match d {
        Decision::Entry(x) => same_entry(e, x),
        Decision::SeedOnly { entry: x } => same_entry(e, x),
        Decision::Clone => exists|placed: Result<CacheOutcome, AppError>, c: Result<Completion, AppError>|
            #[trigger] clone_completed(repository, placed, c) && cache.places(
                repository.url_view(),
                repository.path_view(),
                Some(repository.root_view()),
                repository.default_branch_view(),
                placed,
            ) && (c matches Ok(Completion::Entry { entry: x, .. }) && same_entry(e, x)),
        Decision::Fetch { common_directory, default_branch } => {
            ||| exists|f: Result<(), AppError>, c: Result<Completion, AppError>|
                #[trigger] fetch_completed(repository, f, c) && git.fetches(repository.path_view(), f)
                    && (c matches Ok(Completion::Entry { entry: x, .. }) && same_entry(e, x))
            ||| e.repository@ == repository.display_path_view() && e.blocked_details is None && exists|
                r: Result<GitUpdateOutcome, AppError>,
            | #[trigger] update_result(default_branch@, r, e.outcome) && git.updates(
                repository.path_view(),
                common_directory@,
                default_branch@,
                r,
            )
        },
    }
}

/// The entry sync reports for a repository: what some decision of the check
/// came to, on the answers of `git` and `cache`.
pub open spec fn synced<G: GitClient, C: CacheStore>(git: &G, cache: &C, repository: RepositoryDefinition, dry_run: bool, e: Entry<Outcome>) -> bool {
    exists|d: Decision| #[trigger] settled(git, cache, repository, d, e) && was_checked(git, repository, dry_run, d)
}

/// Every filled slot holds what sync reports for its repository.
pub open spec fn synced_slots<G: GitClient, C: CacheStore>(git: &G, cache: &C, slots: Seq<Option<Entry<Outcome>>>, repositories: Seq<RepositoryDefinition>, dry_run: bool) -> bool {
    forall|j: int|
        #![trigger slots[j]]
        0 <= j < slots.len() ==> match slots[j] {
            Some(e) => synced(git, cache, repositories[j], dry_run, e),
            None => true,
        }
}

/// The decision a preparation carries out.
pub open spec fn prep_decision(p: Preparation) -> Decision {
    match p {
        Preparation::Clone { .. } => Decision::Clone,
        Preparation::Fetch { index: _, common_directory, default_branch } => Decision::Fetch {
            common_directory,
            default_branch,
        },
    }
}

/// An entry that agrees with a reported one but for its note is reported too.
proof fn lemma_synced_note<G: GitClient, C: CacheStore>(git: &G, cache: &C, repository: RepositoryDefinition, dry_run: bool, x: Entry<Outcome>, e: Entry<Outcome>)
    requires
        synced(git, cache, repository, dry_run, x),
        same_entry(e, x),
    ensures
        synced(git, cache, repository, dry_run, e),
{
    let d = choose|d: Decision| #[trigger] settled(git, cache, repository, d, x) && was_checked(git, repository, dry_run, d);
    match d {
        Decision::Clone => {
            let (placed, c) = choose|placed: Result<CacheOutcome, AppError>, c: Result<Completion, AppError>|
                #[trigger] clone_completed(repository, placed, c) && cache.places(
                    repository.url_view(),
                    repository.path_view(),
                    Some(repository.root_view()),
                    repository.default_branch_view(),
                    placed,
                ) && (c matches Ok(Completion::Entry { entry: y, .. }) && same_entry(x, y));
            assert(clone_completed(repository, placed, c));
        },
        Decision::Fetch { common_directory, default_branch } => {
            if exists|f: Result<(), AppError>, c: Result<Completion, AppError>|
                #[trigger] fetch_completed(repository, f, c) && git.fetches(repository.path_view(), f)
                    && (c matches Ok(Completion::Entry { entry: y, .. }) && same_entry(x, y)) {
                let (f, c) = choose|f: Result<(), AppError>, c: Result<Completion, AppError>|
                    #[trigger] fetch_completed(repository, f, c) && git.fetches(repository.path_view(), f)
                        && (c matches Ok(Completion::Entry { entry: y, .. }) && same_entry(x, y));
                assert(fetch_completed(repository, f, c));
            } else {
                let r = choose|r: Result<GitUpdateOutcome, AppError>| #[trigger] update_result(default_branch@, r, x.outcome)
                    && git.updates(repository.path_view(), common_directory@, default_branch@, r);
                assert(update_result(default_branch@, r, e.outcome));
            }
        },
        _ => {},
    }
    assert(settled(git, cache, repository, d, e));
}

/// Attaches each seeding note to its entry.
fn attach_warnings(entries: Vec<Entry<Outcome>>, warnings: Vec<Option<String>>) -> (out: Vec<
    Entry<Outcome>,
>)
    requires
        entries@.len() == warnings@.len(),
    ensures
        out@.len() == entries@.len(),
        forall|k: int|
            0 <= k < entries@.len() ==> (#[trigger] out@[k]).repository == entries@[k].repository
                && out@[k].outcome == entries@[k].outcome && out@[k].blocked_details
                == entries@[k].blocked_details,
{
    let ghost original = entries@;
    let ghost total = entries@.len();
    let mut rest = entries;
    let mut notes = warnings;
    let mut out: Vec<Entry<Outcome>> = Vec::new();
    while rest.len() > 0
        invariant
            rest@.len() == notes@.len(),
            out@.len() + rest@.len() == total,
            total == original.len(),
            rest@ == original.skip(out@.len() as int),
            forall|k: int|
                0 <= k < out@.len() ==> (#[trigger] out@[k]).repository == original[k].repository
                    && out@[k].outcome == original[k].outcome && out@[k].blocked_details
                    == original[k].blocked_details,
        decreases rest@.len(),
    {
        assert(rest@[0] == original[out@.len() as int]);
        let mut entry = rest.remove(0);
        assert(rest@ == original.skip(out@.len() as int + 1));
        match notes.remove(0) {
            Some(message) => entry.set_warning(message),
            None => {},
        }
        out.push(entry);
    }
    out
}

/// `gv sync`: clone every selected repository that is missing, fetch and
/// fast-forward the default branch of every one that exists and is ready,
/// seed the clone cache from existing repositories, and register the
/// results with zoxide when asked. In a dry run nothing is cloned, fetched,
/// changed or registered.
pub fn execute_with_options<
    G: GitClient,
    Z: ZoxideClient,
    F: ConfigFiles,
    C: CacheStore,
    K: Clock,
    E: EventSink<Phase>,
>(
    ctx: &AppContext<G, Z>,
    files: &F,
    cache: &C,
    clock: &K,
    events: &E,
    config_path: Option<&str>,
    targets: &Vec<String>,
    options: SyncOptions,
) -> (res: Result<Report, AppError>)
    ensures
        res matches Ok(r) ==> (r.zoxide is Some <==> options.register_zoxide),
        res matches Ok(r) ==> exists|configured: Seq<RepositoryDefinition>, idx: Seq<usize>|
            resolved_from_valid_tree(configured) && selection_of(configured, targets@, idx) && one_entry_each(
                r.entries@,
                picked(configured, idx),
            ) && forall|k: int|
                0 <= k < r.entries@.len() ==> synced(
                    &ctx.git,
                    cache,
                    picked(configured, idx)[k],
                    options.dry_run,
                    #[trigger] r.entries@[k],
                ),
        res matches Ok(r) ==> (options.dry_run ==> forall|k: int|
            0 <= k < r.entries@.len() ==> leaves_untouched((#[trigger] r.entries@[k]).outcome)),
        res matches Ok(r) ==> (!options.dry_run ==> forall|k: int|
            0 <= k < r.entries@.len() ==> !((#[trigger] r.entries@[k]).outcome is Planned)),
        res matches Ok(r) ==> (options.register_zoxide && options.dry_run ==> (r.zoxide matches Some(
            z,
        ) && zoxide::dry_run_report(r.entries@, z))),
        res matches Ok(r) ==> r.phases.checked.count == r.entries@.len(),
        res matches Ok(r) ==> r.phases.updated.count == tally_of(r.entries@, Tally::Updated),
        res matches Ok(r) ==> (options.dry_run ==> r.phases.prepared.count == 0 && r.phases.updated.count
            == 0),
        res matches Ok(r) ==> (!options.dry_run ==> tally_of(r.entries@, Tally::PlannedClone) == 0
            && tally_of(r.entries@, Tally::PlannedFetch) == 0),
{
    let git = ctx.git();
    match git.verify_available() {
        Ok(()) => {},
        Err(e) => return Err(e),
    }
    let config = match load(files, config_path) {
        Ok(c) => c,
        Err(e) => return Err(e),
    };
    let selected = match select_repositories(config.repositories.as_slice(), targets) {
        Ok(s) => s,
        Err(e) => return Err(e),
    };
    let repositories = selected_repositories(config.repositories.as_slice(), &selected);
    let ghost configured = config.repositories@;
    assert(repositories@ =~= picked(configured, selected@));
    let n = repositories.len();
    let started = clock.mark();
    let mut slots: Vec<Option<Entry<Outcome>>> = empty_slots(n);
    assert(slot_names(slots@, repositories@));

    // Check.
    let mark = clock.mark();
    let mut preparations: Vec<Preparation> = Vec::new();
    let mut seeds: Vec<usize> = Vec::new();
    events.phase_started(Phase::Checking, n)?;
    let mut i: usize = 0;
    while i < n
        invariant
            n == repositories@.len(),
            i <= n,
            slots@.len() == n,
            forall|k: int|
                0 <= k < preparations@.len() ==> match #[trigger] preparations@[k] {
                    Preparation::Clone { index } => index < n,
                    Preparation::Fetch { index, .. } => index < n,
                },
            forall|k: int| 0 <= k < seeds@.len() ==> seeds@[k] < n,
            forall|k: int| 0 <= k < preparations@.len() ==> prep_index(#[trigger] preparations@[k]) < i,
            forall|a: int, b: int|
                0 <= a < b < preparations@.len() ==> prep_index(#[trigger] preparations@[a]) < prep_index(
                    #[trigger] preparations@[b],
                ),
            forall|k: int|
                0 <= k < preparations@.len() ==> slots@[prep_index(#[trigger] preparations@[k]) as int] is None,
            forall|j: int| i <= j < n ==> (#[trigger] slots@[j]) is None,
            no_updated_slots(slots@),
            slot_names(slots@, repositories@),
            options.dry_run ==> untouched_slots(slots@),
            !options.dry_run ==> no_planned_slots(slots@),
            options.dry_run ==> preparations@.len() == 0,
            synced_slots(git, cache, slots@, repositories@, options.dry_run),
            forall|k: int|
                0 <= k < preparations@.len() ==> was_checked(
                    git,
                    repositories@[prep_index(#[trigger] preparations@[k]) as int],
                    options.dry_run,
                    prep_decision(preparations@[k]),
                ),
        decreases n - i,
    {
        events.repository_started(repositories[i].display_path(), Phase::Checking)?;
        let decided = check_repository(git, &repositories[i], options.dry_run);
        let ghost decision = decided;
        proof {
            if decision is Ok {
                let a = choose|a: CheckAnswers| #[trigger] checked(repositories@[i as int], options.dry_run, a, decision)
                    && check_observed(git, repositories@[i as int], options.dry_run, a);
                assert(was_checked(git, repositories@[i as int], options.dry_run, decision->Ok_0));
            }
        }
        match decided {
            Ok(Decision::Entry(e)) => {
                assert(settled(git, cache, repositories@[i as int], decision->Ok_0, e));
                slots.set(i, Some(e));
            },
            Ok(Decision::Clone) => preparations.push(Preparation::Clone { index: i }),
            Ok(Decision::Fetch { common_directory, default_branch }) => preparations.push(
                Preparation::Fetch { index: i, common_directory, default_branch },
            ),
            Ok(Decision::SeedOnly { entry }) => {
                assert(settled(git, cache, repositories@[i as int], decision->Ok_0, entry));
                slots.set(i, Some(entry));
                seeds.push(i);
            },
            Err(e) => return Err(e),
        }
        events.repository_finished(repositories[i].display_path(), Phase::Checking)?;
        i = i + 1;
    }
    let checked = PhaseSummary::new(n, clock.elapsed_since(mark));
    events.phase_completed(Phase::Checking, checked)?;

    // Prepare: clone through the cache, or fetch.
    let mark = clock.mark();
    let mut updates: Vec<Update> = Vec::new();
    let mut prepared_count: usize = 0;
    events.phase_started(Phase::Preparing, preparations.len())?;
    let mut k: usize = 0;
    while k < preparations.len()
        invariant
            n == repositories@.len(),
            slots@.len() == n,
            k <= preparations@.len(),
            prepared_count <= k,
            forall|j: int|
                0 <= j < preparations@.len() ==> match #[trigger] preparations@[j] {
                    Preparation::Clone { index } => index < n,
                    Preparation::Fetch { index, .. } => index < n,
                },
            forall|j: int| 0 <= j < updates@.len() ==> updates@[j].index < n,
            forall|a: int, b: int|
                0 <= a < b < preparations@.len() ==> prep_index(#[trigger] preparations@[a]) < prep_index(
                    #[trigger] preparations@[b],
                ),
            forall|m: int|
                k <= m < preparations@.len() ==> slots@[prep_index(#[trigger] preparations@[m]) as int] is None,
            forall|a: int, b: int|
                0 <= a < b < updates@.len() ==> (#[trigger] updates@[a]).index < (#[trigger] updates@[b]).index,
            forall|j: int, m: int|
                0 <= j < updates@.len() && k <= m < preparations@.len() ==> (#[trigger] updates@[j]).index
                    < prep_index(#[trigger] preparations@[m]),
            forall|j: int| 0 <= j < updates@.len() ==> slots@[(#[trigger] updates@[j]).index as int] is None,
            no_updated_slots(slots@),
            slot_names(slots@, repositories@),
            options.dry_run ==> untouched_slots(slots@),
            !options.dry_run ==> no_planned_slots(slots@),
            options.dry_run ==> preparations@.len() == 0 && updates@.len() == 0,
            synced_slots(git, cache, slots@, repositories@, options.dry_run),
            forall|j: int|
                0 <= j < preparations@.len() ==> was_checked(
                    git,
                    repositories@[prep_index(#[trigger] preparations@[j]) as int],
                    options.dry_run,
                    prep_decision(preparations@[j]),
                ),
            forall|j: int|
                0 <= j < updates@.len() ==> was_checked(
                    git,
                    repositories@[(#[trigger] updates@[j]).index as int],
                    options.dry_run,
                    Decision::Fetch {
                        common_directory: updates@[j].common_directory,
                        default_branch: updates@[j].default_branch,
                    },
                ),
        decreases preparations@.len() - k,
    {
        let ghost before = slots@;
        let ghost old_updates = updates@;
        let ghost at = prep_index(preparations@[k as int]) as int;
        assert(forall|m: int| k < m < preparations@.len() ==> at < prep_index(#[trigger] preparations@[m]));
        let started_at = match &preparations[k] {
            Preparation::Clone { index } => *index,
            Preparation::Fetch { index, .. } => *index,
        };
        events.repository_started(repositories[started_at].display_path(), Phase::Preparing)?;
        match &preparations[k] {
            Preparation::Clone { index } => {
                let repository = &repositories[*index];
                let branch = match repository.default_branch() {
                    Some(b) => Some(b.as_str()),
                    None => None,
                };
                let placed = cache.place(
                    repository.url().as_str(),
                    repository.path(),
                    Some(repository.root()),
                    branch,
                );
                let ghost placed_seen = placed;
                let completion = clone_completion(repository, placed);
                let ghost completed = completion;
                match completion {
                    Ok(Completion::Entry { entry, prepared }) => {
                        if prepared {
                            prepared_count = prepared_count + 1;
                        }
                        assert(clone_completed(*repository, placed_seen, completed));
                        assert(settled(git, cache, *repository, Decision::Clone, entry));
                        assert(was_checked(git, *repository, options.dry_run, prep_decision(preparations@[k as int])));
                        slots.set(*index, Some(entry));
                    },
                    Ok(Completion::Update) => {},
                    Err(e) => return Err(e),
                }
            },
            Preparation::Fetch { index, common_directory, default_branch } => {
                let repository = &repositories[*index];
                let fetched = git.fetch(repository.path());
                let ghost fetched_seen = fetched;
                let completion = fetch_completion(repository, fetched);
                let ghost completed = completion;
                assert(was_checked(git, *repository, options.dry_run, prep_decision(preparations@[k as int])));
                match completion {
                    Ok(Completion::Update) => {
                        prepared_count = prepared_count + 1;
                        updates.push(
                            Update {
                                index: *index,
                                common_directory: common_directory.clone(),
                                default_branch: default_branch.clone(),
                            },
                        );
                    },
                    Ok(Completion::Entry { entry, .. }) => {
                        assert(fetch_completed(*repository, fetched_seen, completed));
                        assert(settled(git, cache, *repository, prep_decision(preparations@[k as int]), entry));
                        slots.set(*index, Some(entry));
                    },
                    Err(e) => return Err(e),
                }
            },
        }
        proof {
            assert forall|j: int| 0 <= j < slots@.len() && j != at implies slots@[j] == before[j] by {}
            assert forall|m: int| k + 1 <= m < preparations@.len() implies slots@[prep_index(#[trigger] preparations@[m]) as int] is None by {
                assert(at < prep_index(preparations@[m]));
            }
            assert forall|j: int| 0 <= j < updates@.len() implies slots@[(#[trigger] updates@[j]).index as int] is None by {
                if j < old_updates.len() {
                    assert(updates@[j] == old_updates[j]);
                    assert(old_updates[j].index < at);
                } else {
                    assert(updates@[j].index == at);
                }
            }
            assert forall|a: int, b: int|
                0 <= a < b < updates@.len() implies (#[trigger] updates@[a]).index < (#[trigger] updates@[b]).index by {
                assert(updates@[a] == old_updates[a]);
                if b < old_updates.len() {
                    assert(updates@[b] == old_updates[b]);
                } else {
                    assert(old_updates[a].index < at);
                }
            }
            assert forall|j: int, m: int|
                0 <= j < updates@.len() && k + 1 <= m < preparations@.len() implies (#[trigger] updates@[j]).index
                    < prep_index(#[trigger] preparations@[m]) by {
                if j < old_updates.len() {
                    assert(updates@[j] == old_updates[j]);
                    assert(old_updates[j].index < prep_index(preparations@[m]));
                } else {
                    assert(updates@[j].index == at);
                }
            }
        }
        events.repository_finished(repositories[started_at].display_path(), Phase::Preparing)?;
        k = k + 1;
    }
    let prepared = PhaseSummary::new(prepared_count, clock.elapsed_since(mark));
    events.phase_completed(Phase::Preparing, prepared)?;

    // Update.
    let mark = clock.mark();
    let mut updated_count: usize = 0;
    proof {
        report::lemma_slot_tally_none(slots@, Tally::Updated);
    }
    events.phase_started(Phase::Updating, updates.len())?;
    let mut k: usize = 0;
    while k < updates.len()
        invariant
            n == repositories@.len(),
            slots@.len() == n,
            k <= updates@.len(),
            updated_count <= k,
            forall|j: int| 0 <= j < updates@.len() ==> updates@[j].index < n,
            forall|j: int| 0 <= j < seeds@.len() ==> seeds@[j] < n,
            forall|a: int, b: int|
                0 <= a < b < updates@.len() ==> (#[trigger] updates@[a]).index < (#[trigger] updates@[b]).index,
            forall|m: int| k <= m < updates@.len() ==> slots@[(#[trigger] updates@[m]).index as int] is None,
            updated_count == slot_tally(slots@, Tally::Updated),
            slot_names(slots@, repositories@),
            options.dry_run ==> untouched_slots(slots@),
            !options.dry_run ==> no_planned_slots(slots@),
            options.dry_run ==> updates@.len() == 0,
            synced_slots(git, cache, slots@, repositories@, options.dry_run),
            forall|j: int|
                0 <= j < updates@.len() ==> was_checked(
                    git,
                    repositories@[(#[trigger] updates@[j]).index as int],
                    options.dry_run,
                    Decision::Fetch {
                        common_directory: updates@[j].common_directory,
                        default_branch: updates@[j].default_branch,
                    },
                ),
        decreases updates@.len() - k,
    {
        let ghost before = slots@;
        let update = &updates[k];
        events.repository_started(repositories[update.index].display_path(), Phase::Updating)?;
        let entry = update::update_repository(
            git,
            &repositories[update.index],
            update.common_directory.as_str(),
            update.default_branch.as_str(),
        );
        match &entry.outcome {
            Outcome::Updated { .. } | Outcome::UpdatedButRestorationFailed { .. } => {
                updated_count = updated_count + 1;
            },
            _ => {},
        }
        proof {
            report::lemma_slot_tally_fill(before, update.index as int, entry, Tally::Updated);
            assert(exists|r: Result<GitUpdateOutcome, AppError>| #[trigger] update_result(update.default_branch@, r, entry.outcome));
            let d = Decision::Fetch { common_directory: update.common_directory, default_branch: update.default_branch };
            assert(d->Fetch_default_branch@ == update.default_branch@);
            assert(settled(git, cache, repositories@[update.index as int], d, entry));
        }
        slots.set(update.index, Some(entry));
        proof {
            assert forall|m: int| k + 1 <= m < updates@.len() implies slots@[(#[trigger] updates@[m]).index as int] is None by {
                assert(updates@[k as int].index < updates@[m].index);
                assert(slots@[updates@[m].index as int] == before[updates@[m].index as int]);
            }
        }
        seeds.push(update.index);
        events.repository_finished(repositories[update.index].display_path(), Phase::Updating)?;
        k = k + 1;
    }
    let updated = PhaseSummary::new(updated_count, clock.elapsed_since(mark));
    events.phase_completed(Phase::Updating, updated)?;

    // Seed the cache from repositories that reached a final state untouched
    // or fetched successfully; a failure becomes a note on the entry.
    let mut warnings: Vec<Option<String>> = Vec::new();
    let mut k: usize = 0;
    while k < n
        invariant
            k <= n,
            warnings@.len() == k,
        decreases n - k,
    {
        warnings.push(None);
        k = k + 1;
    }
    if !options.dry_run {
        let candidates = seed_candidates(repositories.as_slice(), &seeds);
        let mark = clock.mark();
        events.phase_started(Phase::Seeding, candidates.len())?;
        let mut seeded_count: usize = 0;
        let mut k: usize = 0;
        while k < candidates.len()
            invariant
                n == repositories@.len(),
                warnings@.len() == n,
                k <= candidates@.len(),
                seeded_count <= k,
                forall|j: int| 0 <= j < candidates@.len() ==> #[trigger] seeds@.contains(candidates@[j]),
                forall|j: int| 0 <= j < seeds@.len() ==> seeds@[j] < n,
            decreases candidates@.len() - k,
        {
            let index = candidates[k];
            assert(seeds@.contains(index));
            let repository = &repositories[index];
            if !cache.is_cached(repository.url().as_str()) {
                let seeded = match git.common_directory(repository.path()) {
                    Ok(source) => match cache.seed_from_local(
                        repository.url().as_str(),
                        source.as_str(),
                    ) {
                        Ok(_) => Ok(()),
                        Err(e) => Err(e),
                    },
                    Err(e) => Err(e),
                };
                match seed_warning(seeded) {
                    Ok(Some(message)) => warnings.set(index, Some(message)),
                    Ok(None) => {
                        seeded_count = seeded_count + 1;
                    },
                    Err(e) => return Err(e),
                }
            }
            k = k + 1;
        }
        events.phase_completed(Phase::Seeding, PhaseSummary::new(seeded_count, clock.elapsed_since(mark)))?;
    }

    let ghost filled = slots@;
    let entries = match complete_entries(slots) {
        Ok(e) => e,
        Err(e) => return Err(e),
    };
    assert forall|k: int| 0 <= k < entries@.len() implies (#[trigger] entries@[k]).repository@
        == repositories@[k].display_path_view() by {
        assert(filled[k] == Some(entries@[k]));
    }
    assert(options.dry_run ==> forall|k: int|
        0 <= k < entries@.len() ==> leaves_untouched((#[trigger] entries@[k]).outcome)) by {
        if options.dry_run {
            assert forall|k: int| 0 <= k < entries@.len() implies leaves_untouched(
                (#[trigger] entries@[k]).outcome,
            ) by {
                assert(filled[k] == Some(entries@[k]));
            }
        }
    }
    assert(!options.dry_run ==> forall|k: int|
        0 <= k < entries@.len() ==> !((#[trigger] entries@[k]).outcome is Planned)) by {
        if !options.dry_run {
            assert forall|k: int| 0 <= k < entries@.len() implies !((#[trigger] entries@[k]).outcome is Planned) by {
                assert(filled[k] == Some(entries@[k]));
            }
        }
    }
    let ghost completed = entries@;
    let entries = attach_warnings(entries, warnings);
    assert(one_entry_each(entries@, picked(configured, selected@)));
    assert forall|k: int| 0 <= k < entries@.len() implies synced(
        git,
        cache,
        picked(configured, selected@)[k],
        options.dry_run,
        #[trigger] entries@[k],
    ) by {
        assert(filled[k] == Some(completed[k]));
        assert(repositories@[k] == picked(configured, selected@)[k]);
        lemma_synced_note(git, cache, repositories@[k], options.dry_run, completed[k], entries@[k]);
    }
    proof {
        assert forall|k: int| 0 <= k < filled.len() implies ((#[trigger] filled[k]) matches Some(e)
            && e.outcome == entries@[k].outcome) by {
            assert(filled[k] == Some(completed[k]));
        }
        report::lemma_slot_tally_entries(filled, entries@, Tally::Updated);
        if !options.dry_run {
            assert forall|k: int| 0 <= k < entries@.len() implies !in_tally((#[trigger] entries@[k]).outcome, Tally::PlannedClone) by {
                assert(!(entries@[k].outcome is Planned));
            }
            assert forall|k: int| 0 <= k < entries@.len() implies !in_tally((#[trigger] entries@[k]).outcome, Tally::PlannedFetch) by {
                assert(!(entries@[k].outcome is Planned));
            }
            report::lemma_tally_none(entries@, Tally::PlannedClone);
            report::lemma_tally_none(entries@, Tally::PlannedFetch);
        }
    }
    let zoxide = if options.register_zoxide {
        if options.dry_run {
            let report = zoxide::dry_run(repositories.as_slice(), &entries);
            proof {
                zoxide::lemma_dry_run_report(repositories@, entries@, report);
            }
            Some(report)
        } else {
            Some(zoxide::register(ctx.zoxide(), repositories.as_slice(), &entries))
        }
    } else {
        None
    };
    Ok(
        Report::new(
            entries,
            clock.elapsed_since(started),
            PhaseSummaries::new(checked, prepared, updated),
            zoxide,
        ),
    )
}

} // verus!
