//! What the Git client reports about a repository, as plain values. The
//! decisions of the sync, refresh and status use cases are made over these.

use vstd::prelude::*;
use crate::error::AppError;
use crate::repositories::RepositoryDefinition;

verus! {

/// Whether an existing destination can be brought up to date, as inspected
/// before any network work.
#[derive(Debug, Clone, PartialEq, Eq)]
pub enum Readiness {
    NotAWorkTree,
    MissingOrigin,
    UrlMismatch { actual: String, expected: String },
    DetachedHead,
    DirtyTree,
    NoDefaultBranch,
    Ready { default_branch: String },
}

/// How the local default branch stands against its remote counterpart.
#[derive(Debug, Clone, Copy, PartialEq, Eq)]
pub enum BranchReadiness {
    MissingLocal,
    MissingRemote,
    Divergence { ahead: u32, behind: u32 },
}

/// Why Git declined to move the default branch.
#[derive(Debug, Clone, Copy, PartialEq, Eq)]
pub enum GitUpdateBlock {
    DetachedHead,
    DirtyWorkingTree,
    MissingLocalBranch,
    MissingRemoteBranch,
    Diverged,
    AheadOfOrigin,
}

/// What is asked of Git, in order, to learn whether a default branch can be
/// fast-forwarded.
#[derive(Debug, Clone, Copy, PartialEq, Eq)]
pub enum UpdateProbe {
    /// Is a branch checked out?
    CurrentBranch,
    /// Is the working tree clean?
    Clean,
    /// Does the local branch exist?
    LocalBranch,
    /// Does `origin`'s branch exist?
    RemoteBranch,
    /// How far apart are the two?
    Divergence,
}

/// Git's answer to a probe.
#[derive(Debug, Clone, Copy, PartialEq, Eq)]
pub enum ProbeAnswer {
    Holds(bool),
    Divergence { ahead: u64, behind: u64 },
}

/// The next probe, or the verdict.
#[derive(Debug, Clone, Copy, PartialEq, Eq)]
pub enum UpdateStep {
    Ask(UpdateProbe),
    Done(Option<GitUpdateBlock>),
}

/// One step of the update check: a detached HEAD, a dirty tree, a missing
/// local or remote branch each block at once; otherwise the next probe is
/// asked, and the divergence decides last: diverged, ahead of `origin`, or
/// free to fast-forward. An answer of the wrong kind gives no verdict but
/// the same probe again.
pub open spec fn update_step_of(probe: UpdateProbe, answer: ProbeAnswer) -> UpdateStep {
    match (probe, answer) {
        (UpdateProbe::CurrentBranch, ProbeAnswer::Holds(on_branch)) => if on_branch {
            UpdateStep::Ask(UpdateProbe::Clean)
        } else {
            UpdateStep::Done(Some(GitUpdateBlock::DetachedHead))
        },
        (UpdateProbe::Clean, ProbeAnswer::Holds(clean)) => if clean {
            UpdateStep::Ask(UpdateProbe::LocalBranch)
        } else {
            UpdateStep::Done(Some(GitUpdateBlock::DirtyWorkingTree))
        },
        (UpdateProbe::LocalBranch, ProbeAnswer::Holds(exists)) => if exists {
            UpdateStep::Ask(UpdateProbe::RemoteBranch)
        } else {
            UpdateStep::Done(Some(GitUpdateBlock::MissingLocalBranch))
        },
        (UpdateProbe::RemoteBranch, ProbeAnswer::Holds(exists)) => if exists {
            UpdateStep::Ask(UpdateProbe::Divergence)
        } else {
            UpdateStep::Done(Some(GitUpdateBlock::MissingRemoteBranch))
        },
        (UpdateProbe::Divergence, ProbeAnswer::Divergence { ahead, behind }) => if ahead > 0
            && behind > 0 {
            UpdateStep::Done(Some(GitUpdateBlock::Diverged))
        } else if ahead > 0 {
            UpdateStep::Done(Some(GitUpdateBlock::AheadOfOrigin))
        } else {
            UpdateStep::Done(None)
        },
        (p, _) => UpdateStep::Ask(p),
    }
}

pub fn update_step(probe: UpdateProbe, answer: ProbeAnswer) -> (step: UpdateStep)
    ensures
        step == update_step_of(probe, answer),
{
    match (probe, answer) {
        (UpdateProbe::CurrentBranch, ProbeAnswer::Holds(on_branch)) => if on_branch {
            UpdateStep::Ask(UpdateProbe::Clean)
        } else {
            UpdateStep::Done(Some(GitUpdateBlock::DetachedHead))
        },
        (UpdateProbe::Clean, ProbeAnswer::Holds(clean)) => if clean {
            UpdateStep::Ask(UpdateProbe::LocalBranch)
        } else {
            UpdateStep::Done(Some(GitUpdateBlock::DirtyWorkingTree))
        },
        (UpdateProbe::LocalBranch, ProbeAnswer::Holds(exists)) => if exists {
            UpdateStep::Ask(UpdateProbe::RemoteBranch)
        } else {
            UpdateStep::Done(Some(GitUpdateBlock::MissingLocalBranch))
        },
        (UpdateProbe::RemoteBranch, ProbeAnswer::Holds(exists)) => if exists {
            UpdateStep::Ask(UpdateProbe::Divergence)
        } else {
            UpdateStep::Done(Some(GitUpdateBlock::MissingRemoteBranch))
        },
        (UpdateProbe::Divergence, ProbeAnswer::Divergence { ahead, behind }) => if ahead > 0
            && behind > 0 {
            UpdateStep::Done(Some(GitUpdateBlock::Diverged))
        } else if ahead > 0 {
            UpdateStep::Done(Some(GitUpdateBlock::AheadOfOrigin))
        } else {
            UpdateStep::Done(None)
        },
        (p, _) => UpdateStep::Ask(p),
    }
}

/// Whether the branch checked out before an update was put back.
#[derive(Debug, Clone, PartialEq, Eq)]
pub enum Restoration {
    NotNeeded,
    Restored,
    Failed(String),
}

/// The default branch tip before and after an update.
#[derive(Debug, Clone, PartialEq, Eq)]
pub struct GitUpdate {
    pub before: String,
    pub after: String,
}

impl GitUpdate {
    /// Whether the update moved the branch.
    pub open spec fn moved(&self) -> bool {
        self.before@ != self.after@
    }

    pub fn changed(&self) -> (res: bool)
        ensures
            res == self.moved(),
    {
        !(self.before == self.after)
    }
}

/// The result of fast-forwarding the default branch during `sync`.
#[derive(Debug, Clone, PartialEq, Eq)]
pub enum GitUpdateOutcome {
    Blocked(GitUpdateBlock),
    Failed { primary: String, restoration: Restoration },
    Completed { update: GitUpdate, restoration: Restoration },
}

/// The result of switching to and fast-forwarding the default branch during
/// `refresh`; `previous_branch` names the branch that was left, if any.
#[derive(Debug, Clone, PartialEq, Eq)]
pub enum GitRefreshOutcome {
    Blocked(GitUpdateBlock),
    Failed { message: String, previous_branch: Option<String> },
    Completed { update: GitUpdate, previous_branch: Option<String> },
}

/// Whether a working tree has uncommitted changes, and which branch it is on.
#[derive(Debug, Clone, PartialEq, Eq)]
pub struct WorktreeStatus {
    pub branch: Option<String>,
    pub clean: bool,
}

/// An optional text, by its characters.
pub open spec fn text_option(o: Option<&str>) -> Option<Seq<char>> {
    match o {
        Some(t) => Some(t@),
        None => None,
    }
}

/// What the use cases ask of Git and of the directories Git works in. The
/// command-line client implements it outside the library.
///
/// Beside each question stands a relation between the question and the
/// answers the client gives to it, and each method answers within its
/// relation. The relations admit every answer unless an implementation
/// narrows them, so nothing is assumed of what the client answers; a
/// contract stated over them holds whatever the relations are, and so speaks
/// of the answers the client actually gave.
pub trait GitClient {
    /// Whether the `git` executable can be run at all.
    fn verify_available(&self) -> Result<(), AppError>;

    /// The client may answer `answer` when asked whether anything exists at `path`.
    closed spec fn finds_path(&self, path: Seq<char>, answer: bool) -> bool {
        true
    }

    /// Whether anything exists at `path`.
    fn path_exists(&self, path: &str) -> (res: bool)
        ensures
            self.finds_path(path@, res);

    /// The client may answer `answer` when asked whether `path` is a directory.
    closed spec fn finds_directory(&self, path: Seq<char>, answer: bool) -> bool {
        true
    }

    /// Whether `path` is a directory.
    fn is_directory(&self, path: &str) -> (res: bool)
        ensures
            self.finds_directory(path@, res);

    /// The client may answer `answer` when asked whether `path` is the top
    /// of a working tree.
    closed spec fn finds_work_tree(&self, path: Seq<char>, answer: Result<bool, AppError>) -> bool {
        true
    }

    /// Whether `path` is the top of a Git working tree.
    fn is_work_tree(&self, path: &str) -> (res: Result<bool, AppError>)
        ensures
            self.finds_work_tree(path@, res);

    /// The client may answer `answer` when asked to inspect `repository`.
    closed spec fn inspects(&self, repository: RepositoryDefinition, answer: Result<Readiness, AppError>) -> bool {
        true
    }

    /// Whether an existing destination can be brought up to date.
    fn inspect(&self, repository: &RepositoryDefinition) -> (res: Result<Readiness, AppError>)
        ensures
            self.inspects(*repository, res);

    /// The client may answer `answer` when asked how `branch` of
    /// `repository` stands against `origin`.
    closed spec fn stands(&self, repository: RepositoryDefinition, branch: Seq<char>, answer: Result<BranchReadiness, AppError>) -> bool {
        true
    }

    /// How a local branch stands against `origin`.
    fn branch_readiness(&self, repository: &RepositoryDefinition, branch: &str) -> (res: Result<
        BranchReadiness,
        AppError,
    >)
        ensures
            self.stands(*repository, branch@, res);

    /// The client may answer `answer` when asked for the common Git
    /// directory of `path`.
    closed spec fn shares(&self, path: Seq<char>, answer: Result<String, AppError>) -> bool {
        true
    }

    /// The common Git directory shared by every worktree of a repository.
    fn common_directory(&self, path: &str) -> (res: Result<String, AppError>)
        ensures
            self.shares(path@, res);

    /// The client may answer `answer` when asked to fetch `path`.
    closed spec fn fetches(&self, path: Seq<char>, answer: Result<(), AppError>) -> bool {
        true
    }

    /// Fetches `origin`.
    fn fetch(&self, path: &str) -> (res: Result<(), AppError>)
        ensures
            self.fetches(path@, res);

    /// The client may answer `answer` when asked to fast-forward `branch`.
    closed spec fn updates(&self, path: Seq<char>, common_directory: Seq<char>, branch: Seq<char>, answer: Result<GitUpdateOutcome, AppError>) -> bool {
        true
    }

    /// Fast-forwards the default branch without leaving the current branch.
    fn update_default_branch(&self, path: &str, common_directory: &str, branch: &str) -> (res: Result<
        GitUpdateOutcome,
        AppError,
    >)
        ensures
            self.updates(path@, common_directory@, branch@, res);

    /// The client may answer `answer` when asked to switch to `branch` and
    /// fast-forward it.
    closed spec fn refreshes(&self, path: Seq<char>, branch: Seq<char>, answer: Result<GitRefreshOutcome, AppError>) -> bool {
        true
    }

    /// Switches to the default branch and fast-forwards it.
    fn refresh_default_branch(&self, path: &str, branch: &str) -> (res: Result<
        GitRefreshOutcome,
        AppError,
    >)
        ensures
            self.refreshes(path@, branch@, res);

    /// The client may answer `answer` when asked for the working tree at `path`.
    closed spec fn finds_worktree(&self, path: Seq<char>, answer: Result<Option<WorktreeStatus>, AppError>) -> bool {
        true
    }

    /// The branch and cleanliness of a working tree, or `None` when `path` is
    /// not one.
    fn worktree_status(&self, path: &str) -> (res: Result<Option<WorktreeStatus>, AppError>)
        ensures
            self.finds_worktree(path@, res);

    /// The client may answer `answer` when asked for the `origin` of `path`.
    closed spec fn finds_remote(&self, path: Seq<char>, answer: Result<Option<String>, AppError>) -> bool {
        true
    }

    /// The URL of `origin`, or `None` when there is no such remote.
    fn remote_url(&self, path: &str) -> (res: Result<Option<String>, AppError>)
        ensures
            self.finds_remote(path@, res);

    /// The client may answer `answer` when asked whether `actual` names the
    /// repository configured as `expected`.
    closed spec fn compares_urls(&self, actual: Seq<char>, expected: Seq<char>, answer: bool) -> bool {
        true
    }

    /// Whether a remote URL names the configured repository.
    fn urls_match(&self, actual: &str, expected: &str) -> (res: bool)
        ensures
            self.compares_urls(actual@, expected@, res);

    /// The client may answer `answer` when asked for the default branch of
    /// `path`, configured as `configured`.
    closed spec fn finds_default_branch(&self, path: Seq<char>, configured: Option<Seq<char>>, answer: Result<Option<String>, AppError>) -> bool {
        true
    }

    /// The default branch: the configured one, or the remote's.
    fn default_branch(&self, path: &str, configured: Option<&str>) -> (res: Result<
        Option<String>,
        AppError,
    >)
        ensures
            self.finds_default_branch(path@, text_option(configured), res);
}

} // verus!
