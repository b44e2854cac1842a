//! The `status` use case: one line per repository saying whether it exists,
//! is a clean working tree with the configured remote, and how its default
//! branch stands against `origin`.

use vstd::prelude::*;
use crate::app::inspection::{
    destination_not_git_repository, destination_not_git_repository_text, missing_origin,
    missing_origin_text,
};
use crate::app::context::AppContext;
use crate::config::load::{ConfigFiles, load, resolved_from_valid_tree};
use crate::error::AppError;
use crate::repositories::{select_repositories, selection_of};
use crate::zoxide::ZoxideClient;
use crate::git::{BranchReadiness, GitClient, WorktreeStatus};
use crate::repositories::RepositoryDefinition;

verus! {

/// The status of every selected repository, in selection order.
#[derive(Debug, Clone, PartialEq, Eq)]
pub struct StatusReport {
    pub entries: Vec<StatusEntry>,
}

impl StatusReport {
    pub fn new(entries: Vec<StatusEntry>) -> (r: StatusReport)
        ensures
            r.entries == entries,
    {
        StatusReport { entries }
    }

    pub fn entries(&self) -> (e: &[StatusEntry])
        ensures
            e@ == self.entries@,
    {
        self.entries.as_slice()
    }
}

/// The status of one repository.
#[derive(Debug, Clone, PartialEq, Eq)]
pub struct StatusEntry {
    pub name: String,
    pub display_path: String,
    pub absolute_path: String,
    pub url: String,
    pub source_config: String,
    pub branch: Option<String>,
    pub condition: StatusCondition,
    pub default_branch: Option<DefaultBranchStatus>,
    pub remote_mismatch: Option<RemoteUrlMismatch>,
}

impl StatusEntry {
    /// Whether the identifying fields are those of `repository`.
    pub open spec fn describes(&self, repository: RepositoryDefinition) -> bool {
        &&& self.name@ == repository.name_view()
        &&& self.display_path@ == repository.display_path_view()
        &&& self.absolute_path@ == repository.path_view()
        &&& self.url@ == repository.url_view()
        &&& self.source_config@ == repository.source_config_view()
    }

    pub fn from_repository(
        repository: &RepositoryDefinition,
        branch: Option<String>,
        condition: StatusCondition,
        default_branch: Option<DefaultBranchStatus>,
        remote_mismatch: Option<RemoteUrlMismatch>,
    ) -> (e: StatusEntry)
        ensures
            e.describes(*repository),
            e.branch == branch,
            e.condition == condition,
            e.default_branch == default_branch,
            e.remote_mismatch == remote_mismatch,
    {
        StatusEntry {
            name: String::from_str(repository.name().as_str()),
            display_path: String::from_str(repository.display_path()),
            absolute_path: String::from_str(repository.path()),
            url: String::from_str(repository.url().as_str()),
            source_config: String::from_str(repository.source_config()),
            branch,
            condition,
            default_branch,
            remote_mismatch,
        }
    }

    pub fn name(&self) -> (s: &str)
        ensures
            s@ == self.name@,
    {
        self.name.as_str()
    }

    pub fn display_path(&self) -> (s: &str)
        ensures
            s@ == self.display_path@,
    {
        self.display_path.as_str()
    }

    pub fn absolute_path(&self) -> (s: &str)
        ensures
            s@ == self.absolute_path@,
    {
        self.absolute_path.as_str()
    }

    pub fn url(&self) -> (s: &str)
        ensures
            s@ == self.url@,
    {
        self.url.as_str()
    }

    pub fn source_config(&self) -> (s: &str)
        ensures
            s@ == self.source_config@,
    {
        self.source_config.as_str()
    }

    pub fn branch(&self) -> (b: Option<&str>)
        ensures
            match b {
                Some(b) => self.branch matches Some(x) && b@ == x@,
                None => self.branch is None,
            },
    {
        match &self.branch {
            Some(b) => Some(b.as_str()),
            None => None,
        }
    }

    pub fn condition(&self) -> (c: &StatusCondition)
        ensures
            *c == self.condition,
    {
        &self.condition
    }

    pub fn default_branch(&self) -> (d: Option<&DefaultBranchStatus>)
        ensures
            match d {
                Some(d) => self.default_branch == Some(*d),
                None => self.default_branch is None,
            },
    {
        self.default_branch.as_ref()
    }

    pub fn remote_mismatch(&self) -> (m: Option<&RemoteUrlMismatch>)
        ensures
            match m {
                Some(m) => self.remote_mismatch == Some(*m),
                None => self.remote_mismatch is None,
            },
    {
        self.remote_mismatch.as_ref()
    }
}

/// The default branch of a repository and how it stands against `origin`.
#[derive(Debug, Clone, PartialEq, Eq)]
pub struct DefaultBranchStatus {
    pub branch: String,
    pub tracking: BranchTrackingStatus,
}

impl DefaultBranchStatus {
    pub fn new(branch: String, tracking: BranchTrackingStatus) -> (s: DefaultBranchStatus)
        ensures
            s.branch == branch,
            s.tracking == tracking,
    {
        DefaultBranchStatus { branch, tracking }
    }

    pub fn branch(&self) -> (b: &str)
        ensures
            b@ == self.branch@,
    {
        self.branch.as_str()
    }

    pub fn tracking(&self) -> (t: &BranchTrackingStatus)
        ensures
            *t == self.tracking,
    {
        &self.tracking
    }
}

#[derive(Debug, Clone, Copy, PartialEq, Eq)]
pub enum BranchTrackingStatus {
    Divergence { ahead: u32, behind: u32 },
    MissingLocalBranch,
    MissingRemoteBranch,
}

/// The state of a repository's working tree and remote.
#[derive(Debug, Clone, PartialEq, Eq)]
pub enum StatusCondition {
    Missing,
    Invalid(String),
    Clean,
    Dirty,
    RemoteMismatch,
    FetchFailed(String),
}

pub open spec fn condition_label(c: StatusCondition) -> Seq<char> {
    match c {
        StatusCondition::Missing => "missing"@,
        StatusCondition::Invalid(_) => "invalid"@,
        StatusCondition::Clean => "clean"@,
        StatusCondition::Dirty => "dirty"@,
        StatusCondition::RemoteMismatch => "remote-mismatch"@,
        StatusCondition::FetchFailed(_) => "fetch-failed"@,
    }
}

impl StatusCondition {
    /// The short label of the condition.
    pub fn as_str(&self) -> (s: &str)
        ensures
            s@ == condition_label(*self),
    {
        match self {
            StatusCondition::Missing => "missing",
            StatusCondition::Invalid(_) => "invalid",
            StatusCondition::Clean => "clean",
            StatusCondition::Dirty => "dirty",
            StatusCondition::RemoteMismatch => "remote-mismatch",
            StatusCondition::FetchFailed(_) => "fetch-failed",
        }
    }

    /// The explanation an invalid or failed condition carries.
    pub fn message(&self) -> (m: Option<&str>)
        ensures
            match *self {
                StatusCondition::Invalid(x) | StatusCondition::FetchFailed(x) => m matches Some(
                    s,
                ) && s@ == x@,
                _ => m is None,
            },
    {
        match self {
            StatusCondition::Invalid(message) | StatusCondition::FetchFailed(message) => Some(
                message.as_str(),
            ),
            _ => None,
        }
    }
}

/// The URL `origin` has, beside the one configuration expects.
#[derive(Debug, Clone, PartialEq, Eq)]
pub struct RemoteUrlMismatch {
    pub actual: String,
    pub expected: String,
}

impl RemoteUrlMismatch {
    pub fn new(actual: String, expected: String) -> (m: RemoteUrlMismatch)
        ensures
            m.actual == actual,
            m.expected == expected,
    {
        RemoteUrlMismatch { actual, expected }
    }

    pub fn actual(&self) -> (s: &str)
        ensures
            s@ == self.actual@,
    {
        self.actual.as_str()
    }

    pub fn expected(&self) -> (s: &str)
        ensures
            s@ == self.expected@,
    {
        self.expected.as_str()
    }
}

/// The tracking status reported for a default branch.
pub open spec fn tracking_of(readiness: BranchReadiness) -> BranchTrackingStatus {
    match readiness {
        BranchReadiness::MissingLocal => BranchTrackingStatus::MissingLocalBranch,
        BranchReadiness::MissingRemote => BranchTrackingStatus::MissingRemoteBranch,
        BranchReadiness::Divergence { ahead, behind } => BranchTrackingStatus::Divergence {
            ahead,
            behind,
        },
    }
}

pub fn tracking_status(readiness: BranchReadiness) -> (t: BranchTrackingStatus)
    ensures
        t == tracking_of(readiness),
{
    match readiness {
        BranchReadiness::MissingLocal => BranchTrackingStatus::MissingLocalBranch,
        BranchReadiness::MissingRemote => BranchTrackingStatus::MissingRemoteBranch,
        BranchReadiness::Divergence { ahead, behind } => BranchTrackingStatus::Divergence {
            ahead,
            behind,
        },
    }
}

/// The condition of an existing working tree: a missing `origin` makes it
/// invalid, a mismatched one is reported as such, and otherwise it is clean
/// or dirty.
pub open spec fn condition_of(has_origin: bool, mismatched: bool, clean: bool, c: StatusCondition) -> bool {
    if !has_origin {
        c matches StatusCondition::Invalid(m) && m@ == missing_origin_text()
    } else if mismatched {
        c == StatusCondition::RemoteMismatch
    } else if clean {
        c == StatusCondition::Clean
    } else {
        c == StatusCondition::Dirty
    }
}

pub fn worktree_condition(has_origin: bool, mismatched: bool, clean: bool) -> (c: StatusCondition)
    ensures
        condition_of(has_origin, mismatched, clean, c),
{
    if !has_origin {
        StatusCondition::Invalid(missing_origin())
    } else if mismatched {
        StatusCondition::RemoteMismatch
    } else if clean {
        StatusCondition::Clean
    } else {
        StatusCondition::Dirty
    }
}

/// The entry of a repository with no usable working tree.
pub fn condition_only(repository: &RepositoryDefinition, condition: StatusCondition) -> (e: StatusEntry)
    ensures
        e.describes(*repository),
        e.branch is None,
        e.condition == condition,
        e.default_branch is None,
        e.remote_mismatch is None,
{
    StatusEntry::from_repository(repository, None, condition, None, None)
}

/// The entry Git's answers give for a working tree: its branch, the
/// condition its origin and cleanliness settle, the default branch read, and
/// the actual URL beside the configured one when the two do not match.
pub open spec fn answers_status(
    e: StatusEntry,
    repository: RepositoryDefinition,
    worktree: WorktreeStatus,
    actual: Option<String>,
    urls_match: bool,
    default_branch: Option<DefaultBranchStatus>,
) -> bool {
    &&& e.describes(repository)
    &&& e.branch == worktree.branch
    &&& condition_of(actual is Some, actual is Some && !urls_match, worktree.clean, e.condition)
    &&& e.default_branch == default_branch
    &&& match actual {
        Some(a) => if urls_match {
            e.remote_mismatch is None
        } else {
            e.remote_mismatch matches Some(m) && m.actual == a && m.expected@ == repository.url_view()
        },
        None => e.remote_mismatch is None,
    }
}

/// The status of a working tree from what Git answered about it.
pub fn answered_status(
    repository: &RepositoryDefinition,
    worktree: WorktreeStatus,
    actual: Option<String>,
    urls_match: bool,
    default_branch: Option<DefaultBranchStatus>,
) -> (e: StatusEntry)
    ensures
        answers_status(e, *repository, worktree, actual, urls_match, default_branch),
{
    let ghost observed = actual;
    let remote_mismatch = match &actual {
        Some(a) => if urls_match {
            None
        } else {
            Some(RemoteUrlMismatch::new(a.clone(), String::from_str(repository.url().as_str())))
        },
        None => None,
    };
    let condition = worktree_condition(actual.is_some(), actual.is_some() && !urls_match, worktree.clean);
    let e = StatusEntry::from_repository(
        repository,
        worktree.branch,
        condition,
        default_branch,
        remote_mismatch,
    );
    e
}

/// An entry that describes the repository and its condition, and nothing more.
pub open spec fn bare(e: StatusEntry, repository: RepositoryDefinition) -> bool {
    &&& e.describes(repository)
    &&& e.branch is None
    &&& e.default_branch is None
    &&& e.remote_mismatch is None
}

/// A bare entry whose destination is not a Git working tree.
pub open spec fn not_a_work_tree(e: StatusEntry, repository: RepositoryDefinition) -> bool {
    bare(e, repository) && (e.condition matches StatusCondition::Invalid(m) && m@
        == destination_not_git_repository_text())
}

/// A bare entry whose working tree has no `origin`.
pub open spec fn without_origin(e: StatusEntry, repository: RepositoryDefinition) -> bool {
    bare(e, repository) && (e.condition matches StatusCondition::Invalid(m) && m@ == missing_origin_text())
}

/// What Git answered while the status of one repository was read: whether
/// the destination exists, the working tree's state, the `origin` URL,
/// whether it matches the configured URL, the default branch, and how that
/// branch stands against `origin`.
pub struct StatusAnswers {
    pub present: bool,
    pub worktree: Result<Option<WorktreeStatus>, AppError>,
    pub remote: Result<Option<String>, AppError>,
    pub urls_match: bool,
    pub default_branch: Result<Option<String>, AppError>,
    pub branch: Result<BranchReadiness, AppError>,
}

/// The status read from Git's answers: a missing destination is missing, one
/// that is not a working tree is invalid, and otherwise the entry is what
/// `answered_status` makes of the working tree, the remote and the default
/// branch; a failed answer is the read's error.
pub open spec fn status_answered(repository: RepositoryDefinition, a: StatusAnswers, res: Result<StatusEntry, AppError>) -> bool {
    if !a.present {
        res matches Ok(e) && bare(e, repository) && e.condition == StatusCondition::Missing
    } else {
        match a.worktree {
            Err(x) => res == Err::<StatusEntry, AppError>(x),
            Ok(None) => res matches Ok(e) && not_a_work_tree(e, repository),
            Ok(Some(w)) => match a.remote {
                Err(x) => res == Err::<StatusEntry, AppError>(x),
                Ok(actual) => match a.default_branch {
                    Err(x) => res == Err::<StatusEntry, AppError>(x),
                    Ok(None) => res matches Ok(e) && answers_status(e, repository, w, actual, a.urls_match, None),
                    Ok(Some(b)) => match a.branch {
                        Err(x) => res == Err::<StatusEntry, AppError>(x),
                        Ok(r) => res matches Ok(e) && answers_status(
                            e,
                            repository,
                            w,
                            actual,
                            a.urls_match,
                            Some(DefaultBranchStatus { branch: b, tracking: tracking_of(r) }),
                        ),
                    },
                },
            },
        }
    }
}

/// The answers are the ones `git` gives to the questions the status read
/// asks of the repository: whether its destination exists, then its working
/// tree, then its `origin`, whether that names the configured URL, its
/// default branch (the configured one offered), and how that branch stands.
/// Answers to questions not asked are free.
pub open spec fn status_observed<G: GitClient>(git: &G, repository: RepositoryDefinition, a: StatusAnswers) -> bool {
    let path = repository.path_view();
    &&& git.finds_path(path, a.present)
    &&& a.present ==> git.finds_worktree(path, a.worktree)
    &&& (a.present && a.worktree matches Ok(Some(_))) ==> {
        &&& git.finds_remote(path, a.remote)
        &&& a.remote matches Ok(Some(actual)) ==> git.compares_urls(actual@, repository.url_view(), a.urls_match)
        &&& a.remote is Ok ==> git.finds_default_branch(path, repository.default_branch_view(), a.default_branch)
        &&& a.remote is Ok ==> (a.default_branch matches Ok(Some(b)) ==> git.stands(repository, b@, a.branch))
    }
}

/// The status of one repository. A missing destination is missing; one that
/// is not a working tree is invalid; otherwise the branch, the remote and the
/// default branch are read. The result is what `status_answered` makes of
/// Git's answers.
pub fn status_for_repository<G: GitClient>(git: &G, repository: &RepositoryDefinition) -> (res:
    Result<StatusEntry, AppError>)
    ensures
        res matches Ok(e) ==> e.describes(*repository),
        res matches Ok(e) ==> !(e.condition is FetchFailed),
        res matches Ok(e) ==> ((e.condition == StatusCondition::RemoteMismatch) == (e.remote_mismatch is Some)),
        res matches Ok(e) ==> (e.remote_mismatch matches Some(m) ==> m.expected@ == repository.url_view()),
        exists|answers: StatusAnswers| #[trigger] status_answered(*repository, answers, res)
            && status_observed(git, *repository, answers),
{
    let present = git.path_exists(repository.path());
    if !present {
        let res = Ok(condition_only(repository, StatusCondition::Missing));
        let ghost answers = StatusAnswers { present: false, worktree: arbitrary(), remote: arbitrary(), urls_match: arbitrary(), default_branch: arbitrary(), branch: arbitrary() };
        assert(status_answered(*repository, answers, res));
        assert(status_observed(git, *repository, answers));
        return res;
    }
    let worktree_answer = git.worktree_status(repository.path());
    let ghost worktree_seen = worktree_answer;
    let worktree = match worktree_answer {
        Ok(Some(w)) => w,
        Ok(None) => {
            let res = Ok(condition_only(repository, StatusCondition::Invalid(destination_not_git_repository())));
            let ghost answers = StatusAnswers { present: true, worktree: worktree_seen, remote: arbitrary(), urls_match: arbitrary(), default_branch: arbitrary(), branch: arbitrary() };
            assert(status_answered(*repository, answers, res));
            assert(status_observed(git, *repository, answers));
            return res;
        },
        Err(e) => {
            let ghost answers = StatusAnswers { present: true, worktree: worktree_seen, remote: arbitrary(), urls_match: arbitrary(), default_branch: arbitrary(), branch: arbitrary() };
            assert(status_answered(*repository, answers, Err::<StatusEntry, AppError>(e)));
            assert(status_observed(git, *repository, answers));
            return Err(e);
        },
    };
    let remote_answer = git.remote_url(repository.path());
    let ghost remote_seen = remote_answer;
    let actual = match remote_answer {
        Ok(a) => a,
        Err(e) => {
            let ghost answers = StatusAnswers { present: true, worktree: worktree_seen, remote: remote_seen, urls_match: arbitrary(), default_branch: arbitrary(), branch: arbitrary() };
            assert(status_answered(*repository, answers, Err::<StatusEntry, AppError>(e)));
            assert(status_observed(git, *repository, answers));
            return Err(e);
        },
    };
    let expected = repository.url().as_str();
    let urls_match = match &actual {
        Some(a) => git.urls_match(a.as_str(), expected),
        None => true,
    };
    let configured = match repository.default_branch() {
        Some(b) => Some(b.as_str()),
        None => None,
    };
    let branch_answer = git.default_branch(repository.path(), configured);
    let ghost branch_seen = branch_answer;
    let default_branch = match branch_answer {
        Ok(b) => b,
        Err(e) => {
            let ghost answers = StatusAnswers { present: true, worktree: worktree_seen, remote: remote_seen, urls_match, default_branch: branch_seen, branch: arbitrary() };
            assert(status_answered(*repository, answers, Err::<StatusEntry, AppError>(e)));
            assert(status_observed(git, *repository, answers));
            return Err(e);
        },
    };
    let ghost mut standing: Result<BranchReadiness, AppError> = arbitrary();
    let default_branch = match default_branch {
        Some(branch) => {
            let answer = git.branch_readiness(repository, branch.as_str());
            proof { standing = answer; }
            match answer {
                Ok(readiness) => Some(DefaultBranchStatus::new(branch, tracking_status(readiness))),
                Err(e) => {
                    let ghost answers = StatusAnswers { present: true, worktree: worktree_seen, remote: remote_seen, urls_match, default_branch: branch_seen, branch: standing };
                    assert(status_answered(*repository, answers, Err::<StatusEntry, AppError>(e)));
                    assert(status_observed(git, *repository, answers));
                    return Err(e);
                },
            }
        },
        None => None,
    };
    let ghost answered = (worktree, actual, urls_match, default_branch);
    let e = answered_status(repository, worktree, actual, urls_match, default_branch);
    let ghost answers = StatusAnswers { present: true, worktree: worktree_seen, remote: remote_seen, urls_match, default_branch: branch_seen, branch: standing };
    assert(answers_status(e, *repository, answered.0, answered.1, answered.2, answered.3));
    assert(status_answered(*repository, answers, Ok::<StatusEntry, AppError>(e)));
    assert(status_observed(git, *repository, answers));
    Ok(e)
}

/// A working tree's status reports a remote mismatch exactly when Git
/// answered that its `origin` does not name the configured URL, and then
/// records that `origin` beside the configured URL; with a matching
/// `origin` the tree is clean or dirty as Git found it, and no mismatch is
/// recorded. The comparison is the answer Git gave for that `origin` and
/// that URL.
pub proof fn law_status_mismatch_follows_url_answer<G: GitClient>(
    git: &G,
    repository: RepositoryDefinition,
    a: StatusAnswers,
    e: StatusEntry,
    worktree: WorktreeStatus,
    actual: String,
)
    requires
        status_answered(repository, a, Ok(e)),
        status_observed(git, repository, a),
        a.present,
        a.worktree == Ok::<Option<WorktreeStatus>, AppError>(Some(worktree)),
        a.remote == Ok::<Option<String>, AppError>(Some(actual)),
    ensures
        git.compares_urls(actual@, repository.url_view(), a.urls_match),
        (e.condition == StatusCondition::RemoteMismatch) <==> !a.urls_match,
        !a.urls_match ==> (e.remote_mismatch matches Some(m) && m.actual == actual && m.expected@
            == repository.url_view()),
        a.urls_match ==> e.remote_mismatch is None && (worktree.clean ==> e.condition
            == StatusCondition::Clean) && (!worktree.clean ==> e.condition == StatusCondition::Dirty),
        e.describes(repository),
        e.branch == worktree.branch,
{
}

/// What the fetch preflight decided for one repository.
#[derive(Debug, PartialEq, Eq)]
pub enum FetchPreflight {
    /// The status is final without a fetch.
    Entry(StatusEntry),
    /// Fetch, serialized on this common directory.
    Task { common_directory: String },
}

/// What Git answered during the fetch preflight of one repository: whether
/// the destination exists and is a directory, whether it is a working tree,
/// its `origin` URL and whether that matches, its common directory, and
/// the status read when the URL does not match.
pub struct PreflightAnswers {
    pub present: bool,
    pub directory: bool,
    pub work_tree: Result<bool, AppError>,
    pub remote: Result<Option<String>, AppError>,
    pub urls_match: bool,
    pub common: Result<String, AppError>,
    pub status: StatusAnswers,
}

/// The preflight's result from Git's answers: only an existing working tree
/// whose `origin` matches the configured URL becomes a fetch task; a
/// mismatched one gets its plain status.
pub open spec fn preflight_answered(repository: RepositoryDefinition, a: PreflightAnswers, res: Result<FetchPreflight, AppError>) -> bool {
    let work_tree = if a.directory { a.work_tree } else { Ok::<bool, AppError>(false) };
    if !a.present {
        res matches Ok(FetchPreflight::Entry(e)) && bare(e, repository) && e.condition == StatusCondition::Missing
    } else {
        match work_tree {
            Err(x) => res == Err::<FetchPreflight, AppError>(x),
            Ok(false) => res matches Ok(FetchPreflight::Entry(e)) && not_a_work_tree(e, repository),
            Ok(true) => match a.remote {
                Err(x) => res == Err::<FetchPreflight, AppError>(x),
                Ok(None) => res matches Ok(FetchPreflight::Entry(e)) && without_origin(e, repository),
                Ok(Some(_)) => if !a.urls_match {
                    ||| res matches Ok(FetchPreflight::Entry(e)) && status_answered(repository, a.status, Ok(e))
                    ||| res matches Err(x) && status_answered(repository, a.status, Err(x))
                } else {
                    match a.common {
                        Err(x) => res == Err::<FetchPreflight, AppError>(x),
                        Ok(c) => res == Ok::<FetchPreflight, AppError>(FetchPreflight::Task { common_directory: c }),
                    }
                },
            },
        }
    }
}

/// The answers are the ones `git` gives to the questions the preflight
/// asks: whether the destination exists, is a directory and is a working
/// tree, its `origin` and whether that names the configured URL, then the
/// plain status of a mismatched repository or the common directory of a
/// matching one. Answers to questions not asked are free.
pub open spec fn preflight_observed<G: GitClient>(git: &G, repository: RepositoryDefinition, a: PreflightAnswers) -> bool {
    let path = repository.path_view();
    let work_tree = if a.directory { a.work_tree } else { Ok::<bool, AppError>(false) };
    &&& git.finds_path(path, a.present)
    &&& a.present ==> git.finds_directory(path, a.directory)
    &&& (a.present && a.directory) ==> git.finds_work_tree(path, a.work_tree)
    &&& (a.present && work_tree == Ok::<bool, AppError>(true)) ==> {
        &&& git.finds_remote(path, a.remote)
        &&& a.remote matches Ok(Some(actual)) ==> {
            &&& git.compares_urls(actual@, repository.url_view(), a.urls_match)
            &&& !a.urls_match ==> status_observed(git, repository, a.status)
            &&& a.urls_match ==> git.shares(path, a.common)
        }
    }
}

/// The checks before `status --fetch` fetches a repository: only an existing
/// working tree whose `origin` matches the configuration is fetched. The
/// result is what `preflight_answered` makes of Git's answers.
pub fn fetch_preflight<G: GitClient>(git: &G, repository: &RepositoryDefinition) -> (res: Result<
    FetchPreflight,
    AppError,
>)
    ensures
        res matches Ok(FetchPreflight::Entry(e)) ==> e.describes(*repository),
        exists|answers: PreflightAnswers| #[trigger] preflight_answered(*repository, answers, res)
            && preflight_observed(git, *repository, answers),
{
    let ghost mut answers = PreflightAnswers { present: true, directory: arbitrary(), work_tree: arbitrary(), remote: arbitrary(), urls_match: arbitrary(), common: arbitrary(), status: arbitrary() };
    let present = git.path_exists(repository.path());
    if !present {
        let res = Ok(FetchPreflight::Entry(condition_only(repository, StatusCondition::Missing)));
        proof { answers.present = false; }
        assert(preflight_answered(*repository, answers, res));
        assert(preflight_observed(git, *repository, answers));
        return res;
    }
    let directory = git.is_directory(repository.path());
    proof { answers.directory = directory; }
    let work_tree = if directory {
        let answer = git.is_work_tree(repository.path());
        proof { answers.work_tree = answer; }
        match answer {
            Ok(w) => w,
            Err(e) => {
                assert(preflight_answered(*repository, answers, Err::<FetchPreflight, AppError>(e)));
                assert(preflight_observed(git, *repository, answers));
                return Err(e);
            },
        }
    } else {
        false
    };
    if !work_tree {
        let res = Ok(
            FetchPreflight::Entry(
                condition_only(
                    repository,
                    StatusCondition::Invalid(destination_not_git_repository()),
                ),
            ),
        );
        assert(preflight_answered(*repository, answers, res));
        assert(preflight_observed(git, *repository, answers));
        return res;
    }
    let remote = git.remote_url(repository.path());
    proof { answers.remote = remote; }
    let actual = match remote {
        Ok(Some(a)) => a,
        Ok(None) => {
            let res = Ok(
                FetchPreflight::Entry(
                    condition_only(repository, StatusCondition::Invalid(missing_origin())),
                ),
            );
            assert(preflight_answered(*repository, answers, res));
            assert(preflight_observed(git, *repository, answers));
            return res;
        },
        Err(e) => {
            assert(preflight_answered(*repository, answers, Err::<FetchPreflight, AppError>(e)));
            assert(preflight_observed(git, *repository, answers));
            return Err(e);
        },
    };
    let urls_match = git.urls_match(actual.as_str(), repository.url().as_str());
    proof { answers.urls_match = urls_match; }
    if !urls_match {
        let status = status_for_repository(git, repository);
        let ghost status_answers = choose|sa: StatusAnswers| #[trigger] status_answered(*repository, sa, status) && status_observed(git, *repository, sa);
        proof { answers.status = status_answers; }
        let res = match status {
            Ok(e) => Ok(FetchPreflight::Entry(e)),
            Err(e) => Err(e),
        };
        assert(preflight_answered(*repository, answers, res));
        assert(preflight_observed(git, *repository, answers));
        return res;
    }
    let common = git.common_directory(repository.path());
    proof { answers.common = common; }
    let res = match common {
        Ok(common_directory) => Ok(FetchPreflight::Task { common_directory }),
        Err(e) => Err(e),
    };
    assert(preflight_answered(*repository, answers, res));
    assert(preflight_observed(git, *repository, answers));
    res
}

/// What Git answered while a repository was fetched for its status: its
/// `origin` URL and whether it matches, the fetch, and the status read
/// afterwards.
pub struct FetchAnswers {
    pub remote: Result<Option<String>, AppError>,
    pub urls_match: bool,
    pub fetch: Result<(), AppError>,
    pub status: StatusAnswers,
}

/// The status after a fetch from Git's answers: a failed fetch is the
/// repository's condition, with the error's text; otherwise the status is
/// read as `status_answered` says.
pub open spec fn fetch_answered(repository: RepositoryDefinition, a: FetchAnswers, res: Result<StatusEntry, AppError>) -> bool {
    match a.remote {
        Err(x) => res == Err::<StatusEntry, AppError>(x),
        Ok(None) => res matches Ok(e) && without_origin(e, repository),
        Ok(Some(_)) => if !a.urls_match {
            status_answered(repository, a.status, res)
        } else {
            match a.fetch {
                Ok(()) => status_answered(repository, a.status, res),
                Err(x) => res matches Ok(e) && bare(e, repository) && (e.condition matches StatusCondition::FetchFailed(m)
                    && m@ == x.text()),
            }
        },
    }
}

/// The answers are the ones `git` gives to the questions asked around the
/// fetch: the `origin`, whether it names the configured URL, the fetch of a
/// matching one, and the status read afterwards (or at once when the URL
/// does not match). Answers to questions not asked are free.
pub open spec fn fetch_observed<G: GitClient>(git: &G, repository: RepositoryDefinition, a: FetchAnswers) -> bool {
    let path = repository.path_view();
    &&& git.finds_remote(path, a.remote)
    &&& a.remote matches Ok(Some(actual)) ==> {
        &&& git.compares_urls(actual@, repository.url_view(), a.urls_match)
        &&& !a.urls_match ==> status_observed(git, repository, a.status)
        &&& a.urls_match ==> git.fetches(path, a.fetch)
        &&& (a.urls_match && a.fetch is Ok) ==> status_observed(git, repository, a.status)
    }
}

/// The status of a repository after fetching it; a failed fetch is the
/// repository's condition. The caller holds the repository's lock. The
/// result is what `fetch_answered` makes of Git's answers.
pub fn fetch_status<G: GitClient>(git: &G, repository: &RepositoryDefinition) -> (res: Result<
    StatusEntry,
    AppError,
>)
    ensures
        res matches Ok(e) ==> e.describes(*repository),
        exists|answers: FetchAnswers| #[trigger] fetch_answered(*repository, answers, res)
            && fetch_observed(git, *repository, answers),
{
    let ghost mut answers = FetchAnswers { remote: arbitrary(), urls_match: arbitrary(), fetch: arbitrary(), status: arbitrary() };
    let remote = git.remote_url(repository.path());
    proof { answers.remote = remote; }
    let actual = match remote {
        Ok(Some(a)) => a,
        Ok(None) => {
            let res = Ok(condition_only(repository, StatusCondition::Invalid(missing_origin())));
            assert(fetch_answered(*repository, answers, res));
            assert(fetch_observed(git, *repository, answers));
            return res;
        },
        Err(e) => {
            assert(fetch_answered(*repository, answers, Err::<StatusEntry, AppError>(e)));
            assert(fetch_observed(git, *repository, answers));
            return Err(e);
        },
    };
    let urls_match = git.urls_match(actual.as_str(), repository.url().as_str());
    proof { answers.urls_match = urls_match; }
    if !urls_match {
        let res = status_for_repository(git, repository);
        proof { answers.status = choose|sa: StatusAnswers| #[trigger] status_answered(*repository, sa, res) && status_observed(git, *repository, sa); }
        assert(fetch_answered(*repository, answers, res));
        assert(fetch_observed(git, *repository, answers));
        return res;
    }
    let fetched = git.fetch(repository.path());
    proof { answers.fetch = fetched; }
    match fetched {
        Ok(()) => {
            let res = status_for_repository(git, repository);
            proof { answers.status = choose|sa: StatusAnswers| #[trigger] status_answered(*repository, sa, res) && status_observed(git, *repository, sa); }
            assert(fetch_answered(*repository, answers, res));
            assert(fetch_observed(git, *repository, answers));
            res
        },
        Err(e) => {
            let res = Ok(condition_only(repository, StatusCondition::FetchFailed(e.message())));
            assert(fetch_answered(*repository, answers, res));
            assert(fetch_observed(git, *repository, answers));
            res
        },
    }
}

/// The entry `gv status` reports for a repository, from some answers of
/// Git: without `fetch`, what `status_answered` makes of them; with it, the
/// preflight's final entry, or the status after a fetch of a repository the
/// preflight turned into a task.
pub open spec fn status_reported<G: GitClient>(git: &G, repository: RepositoryDefinition, fetch: bool, e: StatusEntry) -> bool {
    if !fetch {
        exists|a: StatusAnswers| #[trigger] status_answered(repository, a, Ok::<StatusEntry, AppError>(e))
            && status_observed(git, repository, a)
    } else {
        ||| exists|p: PreflightAnswers| #[trigger] preflight_answered(
            repository,
            p,
            Ok::<FetchPreflight, AppError>(FetchPreflight::Entry(e)),
        ) && preflight_observed(git, repository, p)
        ||| (exists|p: PreflightAnswers, c: String| #[trigger] preflight_answered(
            repository,
            p,
            Ok::<FetchPreflight, AppError>(FetchPreflight::Task { common_directory: c }),
        ) && preflight_observed(git, repository, p)) && exists|f: FetchAnswers| #[trigger] fetch_answered(repository, f, Ok::<StatusEntry, AppError>(e))
            && fetch_observed(git, repository, f)
    }
}

/// `gv status`: one entry per selected repository, in configuration order;
/// with `fetch`, each repository whose `origin` matches is fetched first.
pub fn execute<G: GitClient, Z: ZoxideClient, F: ConfigFiles>(
    ctx: &AppContext<G, Z>,
    files: &F,
    config_path: Option<&str>,
    targets: &Vec<String>,
    fetch: bool,
) -> (res: Result<StatusReport, AppError>)
    ensures
        res matches Ok(r) ==> exists|configured: Seq<RepositoryDefinition>, idx: Seq<usize>|
            resolved_from_valid_tree(configured) && selection_of(configured, targets@, idx) && r.entries@.len() == idx.len() && forall|
                k: int,
            |
                0 <= k < idx.len() ==> (#[trigger] r.entries@[k]).describes(
                    configured[idx[k] as int],
                ) && status_reported(&ctx.git, configured[idx[k] as int], fetch, r.entries@[k]),
        res matches Ok(r) ==> (!fetch ==> forall|k: int|
            0 <= k < r.entries@.len() ==> !((#[trigger] r.entries@[k]).condition is FetchFailed)),
{
    let git = ctx.git();
    match git.verify_available() {
        Ok(()) => {},
        Err(e) => return Err(e),
    }
    let config = match load(files, config_path) {
        Ok(c) => c,
        Err(e) => return Err(e),
    };
    let selected = match select_repositories(config.repositories.as_slice(), targets) {
        Ok(s) => s,
        Err(e) => return Err(e),
    };
    let mut entries: Vec<StatusEntry> = Vec::new();
    let mut k: usize = 0;
    while k < selected.len()
        invariant
            k <= selected@.len(),
            forall|j: int| 0 <= j < selected@.len() ==> selected@[j] < config.repositories@.len(),
            entries@.len() == k,
            forall|j: int|
                0 <= j < k ==> (#[trigger] entries@[j]).describes(
                    config.repositories@[selected@[j] as int],
                ) && status_reported(git, config.repositories@[selected@[j] as int], fetch, entries@[j]),
            !fetch ==> forall|j: int| 0 <= j < k ==> !((#[trigger] entries@[j]).condition is FetchFailed),
        decreases selected@.len() - k,
    {
        let repository = &config.repositories[selected[k]];
        let entry = if fetch {
            let preflight = fetch_preflight(git, repository);
            let ghost preflight_seen = preflight;
            match preflight {
                Ok(FetchPreflight::Entry(e)) => e,
                Ok(FetchPreflight::Task { common_directory }) => match fetch_status(git, repository) {
                    Ok(e) => {
                        let ghost p = choose|p: PreflightAnswers| #[trigger] preflight_answered(*repository, p, preflight_seen) && preflight_observed(git, *repository, p);
                        assert(preflight_answered(*repository, p, Ok::<FetchPreflight, AppError>(FetchPreflight::Task { common_directory })));
                        e
                    },
                    Err(e) => return Err(e),
                },
                Err(e) => return Err(e),
            }
        } else {
            match status_for_repository(git, repository) {
                Ok(e) => e,
                Err(e) => return Err(e),
            }
        };
        entries.push(entry);
        k = k + 1;
    }
    let report = StatusReport::new(entries);
    assert(selection_of(config.repositories@, targets@, selected@));
    Ok(report)
}

} // verus!
