//! The `add` use case: record existing worktrees in `grove.toml`.

use vstd::prelude::*;
use crate::config::addition::Addition;
use crate::error::AppError;
use crate::paths::{components, join, join_path, path_components};
use crate::repositories::{valid_repository_name, check_repository_name};
use crate::text::push_str;

verus! {

/// How `add` behaves: write to the override file instead of `grove.toml`,
/// and whether to only show what would be written.
#[derive(Debug, Clone, Copy, PartialEq, Eq)]
pub struct Options {
    pub override_file: bool,
    pub dry_run: bool,
}

impl Options {
    pub fn new(override_file: bool, dry_run: bool) -> (o: Options)
        ensures
            o.override_file == override_file,
            o.dry_run == dry_run,
    {
        Options { override_file, dry_run }
    }
}

#[derive(Debug, Clone, PartialEq, Eq)]
pub enum Outcome {
    Added,
    Planned,
    Unchanged,
    Failed(String),
}

/// One path given to `add`, and what became of it.
#[derive(Debug, Clone, PartialEq, Eq)]
pub struct Entry {
    pub input: String,
    pub name: Option<String>,
    pub display_path: Option<String>,
    pub outcome: Outcome,
}

impl Entry {
    pub fn input(&self) -> (s: &str)
        ensures
            s@ == self.input@,
    {
        self.input.as_str()
    }

    pub fn name(&self) -> (s: Option<&str>)
        ensures
            match s {
                Some(s) => self.name matches Some(n) && s@ == n@,
                None => self.name is None,
            },
    {
        match &self.name {
            Some(n) => Some(n.as_str()),
            None => None,
        }
    }

    pub fn display_path(&self) -> (s: Option<&str>)
        ensures
            match s {
                Some(s) => self.display_path matches Some(n) && s@ == n@,
                None => self.display_path is None,
            },
    {
        match &self.display_path {
            Some(n) => Some(n.as_str()),
            None => None,
        }
    }

    pub fn outcome(&self) -> (o: &Outcome)
        ensures
            *o == self.outcome,
    {
        &self.outcome
    }
}

/// The entry of one addition for the given input: added (planned in a dry
/// run) or unchanged; an addition whose file could not be confirmed durable
/// is a failure.
pub open spec fn addition_entry(input: Seq<char>, addition: Addition, dry_run: bool, e: Entry) -> bool {
    &&& e.input@ == input
    &&& match addition {
        Addition::Added { name, display_path } => e.name == Some(name) && e.display_path
            == Some(display_path) && e.outcome == if dry_run {
            Outcome::Planned
        } else {
            Outcome::Added
        },
        Addition::Unchanged { name, display_path } => e.name == Some(name) && e.display_path
            == Some(display_path) && e.outcome == Outcome::Unchanged,
        Addition::DurabilityUnconfirmed { name, display_path, message } => e.name == Some(name)
            && e.display_path == Some(display_path) && e.outcome == Outcome::Failed(message),
    }
}

/// The entry of one addition: added (planned in a dry run) or unchanged; an
/// addition whose file could not be confirmed durable is a failure, so that
/// nothing more is added on top of it.
pub fn entry_for_addition(input: String, addition: Addition, dry_run: bool) -> (e: Entry)
    ensures
        addition_entry(input@, addition, dry_run, e),
        e.input == input,
        match addition {
            Addition::Added { name, display_path } => e.name == Some(name) && e.display_path
                == Some(display_path) && e.outcome == if dry_run {
                Outcome::Planned
            } else {
                Outcome::Added
            },
            Addition::Unchanged { name, display_path } => e.name == Some(name) && e.display_path
                == Some(display_path) && e.outcome == Outcome::Unchanged,
            Addition::DurabilityUnconfirmed { name, display_path, message } => e.name == Some(name)
                && e.display_path == Some(display_path) && e.outcome == Outcome::Failed(message),
        },
{
    match addition {
        Addition::Added { name, display_path } => Entry {
            input,
            name: Some(name),
            display_path: Some(display_path),
            outcome: if dry_run {
                Outcome::Planned
            } else {
                Outcome::Added
            },
        },
        Addition::Unchanged { name, display_path } => Entry {
            input,
            name: Some(name),
            display_path: Some(display_path),
            outcome: Outcome::Unchanged,
        },
        Addition::DurabilityUnconfirmed { name, display_path, message } => Entry {
            input,
            name: Some(name),
            display_path: Some(display_path),
            outcome: Outcome::Failed(message),
        },
    }
}

/// The entry of one path: its result, or its failure; an internal error
/// aborts the whole command instead.
/// The entry recorded for an input from what adding it gave: the entry
/// itself, or a failure with the error's text; an internal error is passed
/// on instead.
pub open spec fn entry_of(input: Seq<char>, result: Result<Entry, AppError>, res: Result<Entry, AppError>) -> bool {
    match result {
        Ok(e) => res == Ok::<Entry, AppError>(e),
        Err(err) => if err is Internal {
            res == Err::<Entry, AppError>(err)
        } else {
            res matches Ok(e) && e.input@ == input && e.name is None && e.display_path is None
                && (e.outcome matches Outcome::Failed(m) && m@ == err.text())
        },
    }
}

pub fn entry_for(input: String, result: Result<Entry, AppError>) -> (res: Result<Entry, AppError>)
    ensures
        entry_of(input@, result, res),
        match result {
            Ok(e) => res == Ok::<Entry, AppError>(e),
            Err(err) => if err is Internal {
                res == Err::<Entry, AppError>(err)
            } else {
                res matches Ok(e) && e.input == input && e.name is None && e.display_path is None
                    && (e.outcome matches Outcome::Failed(m) && m@ == err.text())
            },
        },
{
    match result {
        Ok(e) => Ok(e),
        Err(err) => match err.demote() {
            Err(internal) => Err(internal),
            Ok(message) => Ok(
                Entry { input, name: None, display_path: None, outcome: Outcome::Failed(message) },
            ),
        },
    }
}

/// The directory a relative input names: below the working directory.
pub fn candidate_path(cwd: &str, input: &str) -> (p: String)
    ensures
        p@ == join(cwd@, input@),
{
    join_path(cwd, input)
}

pub open spec fn unavailable_text(input: Seq<char>, error: Seq<char>) -> Seq<char> {
    "repository path '"@ + input + "' is unavailable: "@ + error + "; provide an existing directory"@
}

pub open spec fn not_directory_text(input: Seq<char>) -> Seq<char> {
    "repository path '"@ + input
        + "' is not a directory; provide a directory inside a Git worktree"@
}

pub open spec fn outside_worktree_text(input: Seq<char>) -> Seq<char> {
    "repository path '"@ + input
        + "' is not inside a Git worktree; initialize or clone the repository first"@
}

pub open spec fn no_origin_text(path: Seq<char>) -> Seq<char> {
    "repository '"@ + path + "' has no remote origin; configure a credential-free origin URL first"@
}

pub open spec fn no_name_text(path: Seq<char>) -> Seq<char> {
    "cannot derive a UTF-8 repository name from '"@ + path
        + "'; rename the directory or add the entry manually"@
}

pub open spec fn bad_name_text(path: Seq<char>) -> Seq<char> {
    "cannot derive a repository name from '"@ + path
        + "'; names may contain only ASCII letters, digits, '-', '_' and '.'; rename the directory or add the entry manually"@
}

/// The check that the input names an existing directory; `metadata` is what
/// the file system said of it: whether it is a directory, or its error.
pub fn check_input_directory(input: &str, metadata: Result<bool, AppError>) -> (res: Result<
    (),
    AppError,
>)
    ensures
        match metadata {
            Err(e) => res matches Err(AppError::InvalidArguments(m)) && m@ == unavailable_text(
                input@,
                e.text(),
            ),
            Ok(false) => res matches Err(AppError::InvalidArguments(m)) && m@ == not_directory_text(
                input@,
            ),
            Ok(true) => res is Ok,
        },
{
    match metadata {
        Err(e) => {
            let mut m = String::from_str("repository path '");
            push_str(&mut m, input);
            push_str(&mut m, "' is unavailable: ");
            let text = e.message();
            push_str(&mut m, text.as_str());
            push_str(&mut m, "; provide an existing directory");
            Err(AppError::InvalidArguments(m))
        },
        Ok(false) => {
            let mut m = String::from_str("repository path '");
            push_str(&mut m, input);
            push_str(&mut m, "' is not a directory; provide a directory inside a Git worktree");
            Err(AppError::InvalidArguments(m))
        },
        Ok(true) => Ok(()),
    }
}

/// The worktree containing the input, or the error saying there is none.
pub fn require_worktree(input: &str, root: Option<String>) -> (res: Result<String, AppError>)
    ensures
        match root {
            Some(r) => res == Ok::<String, AppError>(r),
            None => res matches Err(AppError::InvalidArguments(m)) && m@ == outside_worktree_text(
                input@,
            ),
        },
{
    match root {
        Some(r) => Ok(r),
        None => {
            let mut m = String::from_str("repository path '");
            push_str(&mut m, input);
            push_str(
                &mut m,
                "' is not inside a Git worktree; initialize or clone the repository first",
            );
            Err(AppError::InvalidArguments(m))
        },
    }
}

/// The origin URL of the worktree, or the error saying it has none.
pub fn require_origin(repository_path: &str, url: Option<String>) -> (res: Result<String, AppError>)
    ensures
        match url {
            Some(u) => res == Ok::<String, AppError>(u),
            None => res matches Err(AppError::InvalidArguments(m)) && m@ == no_origin_text(
                repository_path@,
            ),
        },
{
    match url {
        Some(u) => Ok(u),
        None => {
            let mut m = String::from_str("repository '");
            push_str(&mut m, repository_path);
            push_str(
                &mut m,
                "' has no remote origin; configure a credential-free origin URL first",
            );
            Err(AppError::InvalidArguments(m))
        },
    }
}

/// The name derived from a worktree's path, or the error saying why none
/// can be.
pub open spec fn derived_name(repository_path: Seq<char>, res: Result<String, AppError>) -> bool {
    &&& components(repository_path).len() == 0 || components(repository_path).last() == seq![
        '.',
        '.',
    ] ==> (res matches Err(AppError::InvalidArguments(m)) && m@ == no_name_text(repository_path))
    &&& components(repository_path).len() > 0 && components(repository_path).last() != seq![
        '.',
        '.',
    ] ==> ({
        let last = components(repository_path).last();
        &&& valid_repository_name(last) ==> (res matches Ok(n) && n@ == last)
        &&& !valid_repository_name(last) ==> (res matches Err(AppError::InvalidArguments(m))
            && m@ == bad_name_text(repository_path))
    })
}

/// The repository name a worktree gets: its directory's name, which must be
/// a valid repository name.
pub fn derive_name(repository_path: &str) -> (res: Result<String, AppError>)
    ensures
        derived_name(repository_path@, res),
{
    let parts = path_components(repository_path);
    if parts.len() == 0 || crate::paths::is_dot_dot(parts[parts.len() - 1].as_str()) {
        let mut m = String::from_str("cannot derive a UTF-8 repository name from '");
        push_str(&mut m, repository_path);
        push_str(&mut m, "'; rename the directory or add the entry manually");
        return Err(AppError::InvalidArguments(m));
    }
    let last = parts[parts.len() - 1].clone();
    assert(last@ == components(repository_path@).last());
    if check_repository_name(last.as_str()) {
        Ok(last)
    } else {
        let mut m = String::from_str("cannot derive a repository name from '");
        push_str(&mut m, repository_path);
        push_str(
            &mut m,
            "'; names may contain only ASCII letters, digits, '-', '_' and '.'; rename the directory or add the entry manually",
        );
        Err(AppError::InvalidArguments(m))
    }
}

/// The kinds of outcome a report counts; every failure is of one kind.
#[derive(Debug, Clone, Copy, PartialEq, Eq, Structural)]
pub enum Kind {
    Added,
    Planned,
    Unchanged,
    Failed,
}

pub open spec fn kind_of(outcome: Outcome) -> Kind {
    match outcome {
        Outcome::Added => Kind::Added,
        Outcome::Planned => Kind::Planned,
        Outcome::Unchanged => Kind::Unchanged,
        Outcome::Failed(_) => Kind::Failed,
    }
}

/// How many entries have an outcome of the given kind.
pub open spec fn count_outcome(entries: Seq<Entry>, kind: Kind) -> nat
    decreases entries.len(),
{
    if entries.len() == 0 {
        0
    } else {
        count_outcome(entries.drop_last(), kind) + if kind_of(entries.last().outcome) == kind {
            1nat
        } else {
            0nat
        }
    }
}

/// Every entry is of exactly one kind, so the four counts of a report add
/// up to its entries.
pub proof fn law_kinds_partition_entries(entries: Seq<Entry>)
    ensures
        count_outcome(entries, Kind::Added) + count_outcome(entries, Kind::Planned) + count_outcome(
            entries,
            Kind::Unchanged,
        ) + count_outcome(entries, Kind::Failed) == entries.len(),
    decreases entries.len(),
{
    if entries.len() > 0 {
        law_kinds_partition_entries(entries.drop_last());
    }
}

proof fn lemma_failures_counted(entries: Seq<Entry>)
    ensures
        (forall|k: int| 0 <= k < entries.len() ==> !entry_failed(#[trigger] entries[k]))
            ==> count_outcome(entries, Kind::Failed) == 0,
        count_outcome(entries, Kind::Failed) <= entries.len(),
    decreases entries.len(),
{
    if entries.len() > 0 {
        lemma_failures_counted(entries.drop_last());
        assert forall|k: int| 0 <= k < entries.len() - 1 implies entries.drop_last()[k] == entries[k] by {}
    }
}

fn outcome_kind(outcome: &Outcome) -> (k: Kind)
    ensures
        k == kind_of(*outcome),
{
    match outcome {
        Outcome::Added => Kind::Added,
        Outcome::Planned => Kind::Planned,
        Outcome::Unchanged => Kind::Unchanged,
        Outcome::Failed(_) => Kind::Failed,
    }
}

fn count_kind(entries: &Vec<Entry>, kind: Kind) -> (n: usize)
    ensures
        n == count_outcome(entries@, kind),
{
    let mut n: usize = 0;
    let mut i: usize = 0;
    while i < entries.len()
        invariant
            i <= entries@.len(),
            n <= i,
            n == count_outcome(entries@.subrange(0, i as int), kind),
        decreases entries@.len() - i,
    {
        assert(entries@.subrange(0, i + 1).drop_last() == entries@.subrange(0, i as int));
        if outcome_kind(&entries[i].outcome) == kind {
            n = n + 1;
        }
        i = i + 1;
    }
    assert(entries@.subrange(0, i as int) == entries@);
    n
}

/// The result of `add`: the entries of the paths tried, in order, out of
/// `total` given. Adding stops at the first failure.
#[derive(Debug, Clone, PartialEq, Eq)]
pub struct Report {
    pub entries: Vec<Entry>,
    pub total: usize,
    pub dry_run: bool,
}

impl Report {
    pub fn new(entries: Vec<Entry>, total: usize, dry_run: bool) -> (r: Report)
        ensures
            r.entries == entries,
            r.total == total,
            r.dry_run == dry_run,
    {
        Report { entries, total, dry_run }
    }

    pub fn entries(&self) -> (e: &[Entry])
        ensures
            e@ == self.entries@,
    {
        self.entries.as_slice()
    }

    pub fn added(&self) -> (n: usize)
        ensures
            n == count_outcome(self.entries@, Kind::Added),
    {
        count_kind(&self.entries, Kind::Added)
    }

    pub fn planned(&self) -> (n: usize)
        ensures
            n == count_outcome(self.entries@, Kind::Planned),
    {
        count_kind(&self.entries, Kind::Planned)
    }

    pub fn unchanged(&self) -> (n: usize)
        ensures
            n == count_outcome(self.entries@, Kind::Unchanged),
    {
        count_kind(&self.entries, Kind::Unchanged)
    }

    pub fn failed(&self) -> (n: usize)
        ensures
            n == count_outcome(self.entries@, Kind::Failed),
    {
        count_kind(&self.entries, Kind::Failed)
    }

    /// The paths given but not tried, because an earlier one failed.
    pub fn not_attempted(&self) -> (n: usize)
        ensures
            n == if self.total >= self.entries@.len() {
                self.total - self.entries@.len()
            } else {
                0
            },
    {
        self.total.saturating_sub(self.entries.len())
    }

    pub fn has_failure(&self) -> (res: bool)
        ensures
            res == (count_outcome(self.entries@, Kind::Failed) > 0),
    {
        self.failed() > 0
    }

    pub fn dry_run(&self) -> (b: bool)
        ensures
            b == self.dry_run,
    {
        self.dry_run
    }
}


/// What `add` learns of the paths it is given, from the file system and Git.
///
/// Beside each question stands a relation between the question and the
/// answers the probe gives to it, and each method answers within its
/// relation. The relations admit every answer unless an implementation
/// narrows them; a contract stated over them holds whatever they are, and
/// so speaks of the answers the probe actually gave.
pub trait AddProbe {
    /// The probe may answer `answer` when asked for the metadata of `path`.
    closed spec fn reads_metadata(&self, path: Seq<char>, answer: Result<bool, AppError>) -> bool {
        true
    }

    /// Whether the path is a directory, or why its metadata could not be read.
    fn directory_metadata(&self, path: &str) -> (res: Result<bool, AppError>)
        ensures
            self.reads_metadata(path@, res);

    /// The probe may answer `answer` when asked to resolve the links of `path`.
    closed spec fn resolves_links(&self, path: Seq<char>, answer: Result<String, AppError>) -> bool {
        true
    }

    /// The path with every link resolved.
    fn canonicalize(&self, path: &str) -> (res: Result<String, AppError>)
        ensures
            self.resolves_links(path@, res);

    /// The probe may answer `answer` when asked for the worktree holding `path`.
    closed spec fn finds_worktree_root(&self, path: Seq<char>, answer: Result<Option<String>, AppError>) -> bool {
        true
    }

    /// The top of the Git worktree holding the directory, if it is in one.
    fn worktree_root(&self, path: &str) -> (res: Result<Option<String>, AppError>)
        ensures
            self.finds_worktree_root(path@, res);

    /// The probe may answer `answer` when asked for the `origin` of the
    /// worktree at `path`.
    closed spec fn finds_origin(&self, path: Seq<char>, answer: Result<Option<String>, AppError>) -> bool {
        true
    }

    /// The URL of the worktree's `origin` remote, if it has one.
    fn remote_url(&self, path: &str) -> (res: Result<Option<String>, AppError>)
        ensures
            self.finds_origin(path@, res);
}

/// The configuration file that `add` edits, opened before the first path.
///
/// Recording answers within a relation between what is handed to it and the
/// answer, which admits every answer unless an implementation narrows it.
pub trait AdditionSession {
    /// The session may answer `answer` when asked to record the repository
    /// `name` at `repository_path` with `url`.
    closed spec fn records(&self, name: Seq<char>, repository_path: Seq<char>, url: Seq<char>, answer: Result<Addition, AppError>) -> bool {
        true
    }

    /// Records the repository, or finds it already recorded.
    fn add(&mut self, name: &str, repository_path: &str, url: &str) -> (res: Result<Addition, AppError>)
        ensures
            old(self).records(name@, repository_path@, url@, res);

    /// Hands on an entry as soon as it is settled.
    fn announce(&mut self, entry: &Entry) -> Result<(), AppError>;
}

/// What `add` learned of one path and what the session answered: the
/// directory's metadata, the path with links resolved, the worktree holding
/// it, the worktree's `origin`, and the addition.
pub struct AddAnswers {
    pub metadata: Result<bool, AppError>,
    pub canonical: Result<String, AppError>,
    pub root: Result<Option<String>, AppError>,
    pub remote: Result<Option<String>, AppError>,
    pub addition: Result<Addition, AppError>,
}

/// The result of adding one path from the answers: the input must be a
/// directory inside a worktree that has a name and an `origin`; then the
/// entry is what `entry_for_addition` makes of the session's addition.
pub open spec fn added_one(input: Seq<char>, dry_run: bool, a: AddAnswers, res: Result<Entry, AppError>) -> bool {
    match a.metadata {
        Err(x) => res matches Err(AppError::InvalidArguments(m)) && m@ == unavailable_text(input, x.text()),
        Ok(false) => res matches Err(AppError::InvalidArguments(m)) && m@ == not_directory_text(input),
        Ok(true) => match a.canonical {
            Err(x) => res == Err::<Entry, AppError>(x),
            Ok(_) => match a.root {
                Err(x) => res == Err::<Entry, AppError>(x),
                Ok(None) => res matches Err(AppError::InvalidArguments(m)) && m@ == outside_worktree_text(input),
                Ok(Some(root)) => exists|name: Result<String, AppError>| #[trigger] derived_name(root@, name) && match name {
                    Err(x) => res == Err::<Entry, AppError>(x),
                    Ok(_) => match a.remote {
                        Err(x) => res == Err::<Entry, AppError>(x),
                        Ok(None) => res matches Err(AppError::InvalidArguments(m)) && m@ == no_origin_text(root@),
                        Ok(Some(_)) => match a.addition {
                            Err(x) => res == Err::<Entry, AppError>(x),
                            Ok(addition) => res matches Ok(e) && addition_entry(input, addition, dry_run, e),
                        },
                    },
                },
            },
        },
    }
}

/// A worktree at `root` has a name: the last component of its path, which
/// is a valid repository name.
pub open spec fn named_root(root: Seq<char>) -> bool {
    let parts = components(root);
    parts.len() > 0 && parts.last() != seq!['.', '.'] && valid_repository_name(parts.last())
}

/// The answers are the ones the probe and the session give to the questions
/// adding one path asks: the metadata of the input below the working
/// directory, that path with links resolved, the worktree holding it, the
/// worktree's `origin`, and the recording of the worktree's name, its root
/// and that URL. Answers to questions not asked are free.
pub open spec fn add_observed<P: AddProbe, S: AdditionSession>(probe: P, session: S, cwd: Seq<char>, input: Seq<char>, a: AddAnswers) -> bool {
    let candidate = join(cwd, input);
    &&& probe.reads_metadata(candidate, a.metadata)
    &&& a.metadata == Ok::<bool, AppError>(true) ==> {
        &&& probe.resolves_links(candidate, a.canonical)
        &&& a.canonical matches Ok(c) ==> {
            &&& probe.finds_worktree_root(c@, a.root)
            &&& a.root matches Ok(Some(root)) ==> (named_root(root@) ==> {
                &&& probe.finds_origin(root@, a.remote)
                &&& a.remote matches Ok(Some(url)) ==> session.records(
                    components(root@).last(),
                    root@,
                    url@,
                    a.addition,
                )
            })
        }
    }
}

/// One path: its directory, worktree, name and origin, then the addition.
/// The result is what `added_one` makes of the answers.
fn add_one<P: AddProbe, S: AdditionSession>(
    probe: &P,
    session: &mut S,
    cwd: &str,
    input: &str,
    dry_run: bool,
) -> (res: Result<Entry, AppError>)
    ensures
        res matches Ok(e) ==> e.input@ == input@ && e.name is Some && e.display_path is Some,
        exists|answers: AddAnswers| #[trigger] added_one(input@, dry_run, answers, res)
            && add_observed(*probe, *old(session), cwd@, input@, answers),
{
    let ghost mut answers = AddAnswers { metadata: arbitrary(), canonical: arbitrary(), root: arbitrary(), remote: arbitrary(), addition: arbitrary() };
    let candidate = candidate_path(cwd, input);
    let metadata = probe.directory_metadata(candidate.as_str());
    proof { answers.metadata = metadata; }
    match check_input_directory(input, metadata) {
        Ok(()) => {},
        Err(e) => {
            assert(added_one(input@, dry_run, answers, Err::<Entry, AppError>(e)));
            assert(add_observed(*probe, *old(session), cwd@, input@, answers));
            return Err(e);
        },
    }
    let canonical = probe.canonicalize(candidate.as_str());
    proof { answers.canonical = canonical; }
    let candidate = match canonical {
        Ok(c) => c,
        Err(e) => {
            assert(added_one(input@, dry_run, answers, Err::<Entry, AppError>(e)));
            assert(add_observed(*probe, *old(session), cwd@, input@, answers));
            return Err(e);
        },
    };
    let root_answer = probe.worktree_root(candidate.as_str());
    proof { answers.root = root_answer; }
    let root = match root_answer {
        Ok(r) => r,
        Err(e) => {
            assert(added_one(input@, dry_run, answers, Err::<Entry, AppError>(e)));
            assert(add_observed(*probe, *old(session), cwd@, input@, answers));
            return Err(e);
        },
    };
    let root = match require_worktree(input, root) {
        Ok(r) => r,
        Err(e) => {
            assert(added_one(input@, dry_run, answers, Err::<Entry, AppError>(e)));
            assert(add_observed(*probe, *old(session), cwd@, input@, answers));
            return Err(e);
        },
    };
    let derived = derive_name(root.as_str());
    let ghost derived_seen = derived;
    let name = match derived {
        Ok(n) => n,
        Err(e) => {
            assert(derived_name(root@, derived_seen));
            assert(added_one(input@, dry_run, answers, Err::<Entry, AppError>(e)));
            assert(add_observed(*probe, *old(session), cwd@, input@, answers));
            return Err(e);
        },
    };
    let remote = probe.remote_url(root.as_str());
    proof { answers.remote = remote; }
    let url = match remote {
        Ok(u) => u,
        Err(e) => {
            assert(derived_name(root@, derived_seen));
            assert(added_one(input@, dry_run, answers, Err::<Entry, AppError>(e)));
            assert(add_observed(*probe, *old(session), cwd@, input@, answers));
            return Err(e);
        },
    };
    let url = match require_origin(root.as_str(), url) {
        Ok(u) => u,
        Err(e) => {
            assert(derived_name(root@, derived_seen));
            assert(added_one(input@, dry_run, answers, Err::<Entry, AppError>(e)));
            assert(add_observed(*probe, *old(session), cwd@, input@, answers));
            return Err(e);
        },
    };
    let addition = session.add(name.as_str(), root.as_str(), url.as_str());
    proof { answers.addition = addition; }
    let addition = match addition {
        Ok(a) => a,
        Err(e) => {
            assert(derived_name(root@, derived_seen));
            assert(added_one(input@, dry_run, answers, Err::<Entry, AppError>(e)));
            assert(add_observed(*probe, *old(session), cwd@, input@, answers));
            return Err(e);
        },
    };
    let entry = entry_for_addition(String::from_str(input), addition, dry_run);
    assert(derived_name(root@, derived_seen));
    assert(added_one(input@, dry_run, answers, Ok::<Entry, AppError>(entry)));
    assert(add_observed(*probe, *old(session), cwd@, input@, answers));
    Ok(entry)
}

/// A path that `add` records is recorded at the root of the worktree the
/// probe found for the input (below the working directory, links
/// resolved), under the name of that root's last component, with the root's
/// `origin`; the entry is what the session answered to exactly that.
pub proof fn law_added_at_worktree_root<P: AddProbe, S: AdditionSession>(
    probe: P,
    session: S,
    cwd: Seq<char>,
    input: Seq<char>,
    dry_run: bool,
    a: AddAnswers,
    e: Entry,
)
    requires
        added_one(input, dry_run, a, Ok(e)),
        add_observed(probe, session, cwd, input, a),
    ensures
        probe.reads_metadata(join(cwd, input), Ok(true)),
        a.canonical matches Ok(c) && probe.resolves_links(join(cwd, input), Ok(c)) && (a.root matches Ok(Some(root))
            && probe.finds_worktree_root(c@, Ok(Some(root))) && named_root(root@) && (a.remote matches Ok(Some(url))
            && probe.finds_origin(root@, Ok(Some(url))) && session.records(components(root@).last(), root@, url@, a.addition)
            && (a.addition matches Ok(addition) && addition_entry(input, addition, dry_run, e)))),
{
    let root = a.root->Ok_0->Some_0;
    let name = choose|name: Result<String, AppError>| #[trigger] derived_name(root@, name) && match name {
        Err(x) => Ok::<Entry, AppError>(e) == Err::<Entry, AppError>(x),
        Ok(_) => match a.remote {
            Err(x) => Ok::<Entry, AppError>(e) == Err::<Entry, AppError>(x),
            Ok(None) => false,
            Ok(Some(_)) => match a.addition {
                Err(x) => Ok::<Entry, AppError>(e) == Err::<Entry, AppError>(x),
                Ok(addition) => addition_entry(input, addition, dry_run, e),
            },
        },
    };
    assert(derived_name(root@, name));
}

/// The entry `add` records for an input: what `entry_for` makes of some
/// result of adding it, as `added_one` relates results to answers.
pub open spec fn recorded<P: AddProbe, S: AdditionSession>(probe: P, cwd: Seq<char>, input: Seq<char>, dry_run: bool, e: Entry) -> bool {
    exists|session: S, a: AddAnswers, attempt: Result<Entry, AppError>|
        #[trigger] added_one(input, dry_run, a, attempt) && #[trigger] add_observed(probe, session, cwd, input, a)
            && entry_of(input, attempt, Ok::<Entry, AppError>(e))
}

/// Whether the entry is a failure.
pub open spec fn entry_failed(entry: Entry) -> bool {
    entry.outcome is Failed
}

/// The paths `add` works through: those given, or the working directory.
pub open spec fn add_inputs(paths: Seq<String>) -> Seq<Seq<char>> {
    if paths.len() == 0 {
        seq![seq!['.']]
    } else {
        Seq::new(paths.len(), |k: int| paths[k]@)
    }
}

/// `gv add`: records each path's worktree in the open session, in order,
/// stopping at the first failure. An internal error ends the command.
pub fn execute<P: AddProbe, S: AdditionSession>(
    probe: &P,
    session: &mut S,
    cwd: &str,
    paths: &Vec<String>,
    dry_run: bool,
) -> (res: Result<Report, AppError>)
    ensures
        res matches Ok(r) ==> {
            let inputs = add_inputs(paths@);
            &&& r.total == inputs.len()
            &&& r.dry_run == dry_run
            &&& 1 <= r.entries@.len() <= r.total
            &&& forall|k: int| 0 <= k < r.entries@.len() ==> (#[trigger] r.entries@[k]).input@ == inputs[k]
            &&& forall|k: int| 0 <= k < r.entries@.len() ==> recorded::<P, S>(*probe, cwd@, inputs[k], dry_run, #[trigger] r.entries@[k])
            &&& forall|k: int| 0 <= k < r.entries@.len() - 1 ==> !entry_failed(#[trigger] r.entries@[k])
            &&& r.entries@.len() < r.total ==> entry_failed(r.entries@.last())
            &&& count_outcome(r.entries@, Kind::Failed) == if entry_failed(r.entries@.last()) {
                1nat
            } else {
                0nat
            }
        },
{
    let mut inputs: Vec<String> = Vec::new();
    if paths.len() == 0 {
        inputs.push(String::from_str("."));
        proof {
            reveal_strlit(".");
        }
    } else {
        let mut k: usize = 0;
        while k < paths.len()
            invariant
                k <= paths@.len(),
                paths@.len() > 0,
                inputs@.len() == k,
                forall|j: int| 0 <= j < k ==> (#[trigger] inputs@[j])@ == paths@[j]@,
            decreases paths@.len() - k,
        {
            inputs.push(paths[k].clone());
            k = k + 1;
        }
    }
    let ghost wanted = add_inputs(paths@);
    assert(inputs@.len() == wanted.len());
    assert(forall|j: int| 0 <= j < inputs@.len() ==> (#[trigger] inputs@[j])@ == wanted[j]);
    let total = inputs.len();
    let mut entries: Vec<Entry> = Vec::new();
    let mut i: usize = 0;
    while i < total
        invariant_except_break
            forall|k: int| 0 <= k < entries@.len() ==> !entry_failed(#[trigger] entries@[k]),
        invariant
            total == inputs@.len(),
            total == wanted.len(),
            total >= 1,
            i <= total,
            entries@.len() == i,
            forall|j: int| 0 <= j < inputs@.len() ==> (#[trigger] inputs@[j])@ == wanted[j],
            forall|k: int| 0 <= k < entries@.len() ==> (#[trigger] entries@[k]).input@ == wanted[k],
            forall|k: int| 0 <= k < entries@.len() ==> recorded::<P, S>(*probe, cwd@, wanted[k], dry_run, #[trigger] entries@[k]),
            forall|k: int| 0 <= k < entries@.len() - 1 ==> !entry_failed(#[trigger] entries@[k]),
        ensures
            1 <= entries@.len() <= total,
            forall|k: int| 0 <= k < entries@.len() ==> (#[trigger] entries@[k]).input@ == wanted[k],
            forall|k: int| 0 <= k < entries@.len() ==> recorded::<P, S>(*probe, cwd@, wanted[k], dry_run, #[trigger] entries@[k]),
            forall|k: int| 0 <= k < entries@.len() - 1 ==> !entry_failed(#[trigger] entries@[k]),
            entries@.len() < total ==> entry_failed(entries@.last()),
        decreases total - i,
    {
        let input = inputs[i].as_str();
        let ghost before_attempt = *session;
        let attempt = add_one(probe, session, cwd, input, dry_run);
        let ghost attempted = attempt;
        let entry = match entry_for(String::from_str(input), attempt) {
            Ok(e) => e,
            Err(e) => return Err(e),
        };
        assert(recorded::<P, S>(*probe, cwd@, wanted[i as int], dry_run, entry)) by {
            let a = choose|a: AddAnswers| #[trigger] added_one(input@, dry_run, a, attempted)
                && add_observed(*probe, before_attempt, cwd@, input@, a);
            assert(added_one(wanted[i as int], dry_run, a, attempted));
        }
        let failed = match &entry.outcome {
            Outcome::Failed(_) => true,
            _ => false,
        };
        session.announce(&entry)?;
        entries.push(entry);
        i = i + 1;
        if failed {
            break;
        }
    }
    proof {
        let front = entries@.drop_last();
        assert forall|k: int| 0 <= k < front.len() implies !entry_failed(#[trigger] front[k]) by {
            assert(front[k] == entries@[k]);
        }
        lemma_failures_counted(front);
    }
    Ok(Report::new(entries, total, dry_run))
}

} // verus!
