//! The vocabulary and report of a refresh run.

use vstd::prelude::*;
use std::time::Duration;
use crate::app::entry::Entry;
use crate::app::events::PhaseSummary;
use crate::app::inspection::{
    ahead_of_origin, ahead_of_origin_text, diverged, diverged_text, missing_local_branch,
    missing_local_branch_text, missing_origin, missing_origin_text, missing_remote_branch,
    missing_remote_branch_text, missing_remote_default_branch,
    missing_remote_default_branch_text, remote_url_mismatch, remote_url_mismatch_text, surround,
};

verus! {

/// What a dry run would do to a repository: put it on this branch.
#[derive(Debug, Clone, PartialEq, Eq)]
pub struct Plan {
    pub branch: String,
}

impl Plan {
    pub fn new(branch: String) -> (p: Plan)
        ensures
            p.branch == branch,
    {
        Plan { branch }
    }

    pub fn branch(&self) -> (b: &str)
        ensures
            b@ == self.branch@,
    {
        self.branch.as_str()
    }
}

#[derive(Debug, Clone, PartialEq, Eq)]
pub enum SkippedReason {
    DirtyWorkingTree,
}

impl SkippedReason {
    pub fn message(&self) -> (m: &'static str)
        ensures
            m@ == "dirty working tree"@,
    {
        match self {
            SkippedReason::DirtyWorkingTree => "dirty working tree",
        }
    }
}

#[derive(Debug, Clone, PartialEq, Eq)]
pub enum BlockedReason {
    MissingRepository,
    DestinationNotGitRepository,
    MissingOrigin,
    RemoteUrlMismatch,
    DetachedHead,
    FetchFailed(String),
    MissingRemoteDefaultBranch,
    MissingLocalBranch { branch: String },
    MissingRemoteBranch { branch: String },
    Diverged { branch: String },
    AheadOfOrigin { branch: String },
    UpdateFailed(String),
    /// Another selected worktree of the same repository has the same default
    /// branch; Git checks a branch out in one worktree only.
    LinkedWorktreeDefaultBranchConflict { branch: String },
}

pub open spec fn linked_worktree_conflict_text(branch: Seq<char>) -> Seq<char> {
    "default branch '"@ + branch + "' is also the default branch of another selected worktree"@
}

/// The text shown for a blocked repository.
pub open spec fn blocked_text(reason: BlockedReason) -> Seq<char> {
    match reason {
        BlockedReason::MissingRepository => "repository is missing; run gv sync to clone it"@,
        BlockedReason::DestinationNotGitRepository =>
            "destination exists but is not a Git worktree"@,
        BlockedReason::MissingOrigin => missing_origin_text(),
        BlockedReason::RemoteUrlMismatch => remote_url_mismatch_text(),
        BlockedReason::DetachedHead => "detached HEAD cannot be refreshed safely"@,
        BlockedReason::FetchFailed(m) => m@,
        BlockedReason::MissingRemoteDefaultBranch => missing_remote_default_branch_text(),
        BlockedReason::MissingLocalBranch { branch } => missing_local_branch_text(branch@),
        BlockedReason::MissingRemoteBranch { branch } => missing_remote_branch_text(branch@),
        BlockedReason::Diverged { branch } => diverged_text(branch@),
        BlockedReason::AheadOfOrigin { branch } => ahead_of_origin_text(branch@),
        BlockedReason::UpdateFailed(m) => m@,
        BlockedReason::LinkedWorktreeDefaultBranchConflict { branch } =>
            linked_worktree_conflict_text(branch@),
    }
}

impl BlockedReason {
    pub fn message(&self) -> (m: String)
        ensures
            m@ == blocked_text(*self),
    {
        match self {
            BlockedReason::MissingRepository => String::from_str(
                "repository is missing; run gv sync to clone it",
            ),
            BlockedReason::DestinationNotGitRepository => String::from_str(
                "destination exists but is not a Git worktree",
            ),
            BlockedReason::MissingOrigin => missing_origin(),
            BlockedReason::RemoteUrlMismatch => remote_url_mismatch(),
            BlockedReason::DetachedHead => String::from_str(
                "detached HEAD cannot be refreshed safely",
            ),
            BlockedReason::FetchFailed(m) => m.clone(),
            BlockedReason::MissingRemoteDefaultBranch => missing_remote_default_branch(),
            BlockedReason::MissingLocalBranch { branch } => missing_local_branch(branch.as_str()),
            BlockedReason::MissingRemoteBranch { branch } => missing_remote_branch(
                branch.as_str(),
            ),
            BlockedReason::Diverged { branch } => diverged(branch.as_str()),
            BlockedReason::AheadOfOrigin { branch } => ahead_of_origin(branch.as_str()),
            BlockedReason::UpdateFailed(m) => m.clone(),
            BlockedReason::LinkedWorktreeDefaultBranchConflict { branch } => surround(
                "default branch '",
                branch.as_str(),
                "' is also the default branch of another selected worktree",
            ),
        }
    }
}

/// What happened to one repository during refresh.
#[derive(Debug, Clone, PartialEq, Eq)]
pub enum Outcome {
    Planned(Plan),
    /// The default branch moved; `previous_branch` names the branch left, if
    /// the repository was on another one.
    Refreshed { branch: String, before: String, after: String, previous_branch: Option<String> },
    /// The repository was put on its default branch, which was current.
    Switched { branch: String, previous_branch: String },
    /// The repository was put on its default branch, but updating it failed.
    SwitchedAndBlocked { branch: String, previous_branch: String, reason: BlockedReason },
    Current { branch: String },
    Skipped { reason: SkippedReason },
    Blocked { reason: BlockedReason },
}

/// An outcome that changed nothing on disk: planned, skipped or blocked.
pub open spec fn leaves_untouched(outcome: Outcome) -> bool {
    outcome is Planned || outcome is Skipped || outcome is Blocked
}

/// Where an outcome stands among those of one repository when a report is
/// listed: refreshes first, then switches, failed switches, skips, blocks,
/// and what changed nothing.
pub open spec fn change_rank_of(outcome: Outcome) -> u8 {
    match outcome {
        Outcome::Refreshed { .. } => 0,
        Outcome::Switched { .. } => 1,
        Outcome::SwitchedAndBlocked { .. } => 2,
        Outcome::Skipped { .. } => 3,
        Outcome::Blocked { .. } => 4,
        Outcome::Planned(_) | Outcome::Current { .. } => 5,
    }
}

pub fn change_rank(outcome: &Outcome) -> (rank: u8)
    ensures
        rank == change_rank_of(*outcome),
{
    match outcome {
        Outcome::Refreshed { .. } => 0,
        Outcome::Switched { .. } => 1,
        Outcome::SwitchedAndBlocked { .. } => 2,
        Outcome::Skipped { .. } => 3,
        Outcome::Blocked { .. } => 4,
        Outcome::Planned(_) | Outcome::Current { .. } => 5,
    }
}

/// The groups of outcomes a report counts.
#[derive(Debug, Clone, Copy, PartialEq, Eq)]
pub enum Tally {
    Planned,
    /// Moved or switched onto the default branch.
    Refreshed,
    Skipped,
    /// Blocked, whether or not the repository was switched first.
    Blocked,
    /// Outcomes that make the run fail.
    Failure,
    /// Outcomes the refresh phase counts as changes.
    Changed,
}

pub open spec fn in_tally(outcome: Outcome, tally: Tally) -> bool {
    match tally {
        Tally::Planned => outcome is Planned,
        Tally::Refreshed => outcome is Refreshed || outcome is Switched,
        Tally::Skipped => outcome is Skipped,
        Tally::Blocked => outcome is Blocked || outcome is SwitchedAndBlocked,
        Tally::Failure => outcome is Skipped || outcome is Blocked || outcome is SwitchedAndBlocked,
        Tally::Changed => outcome is Refreshed || outcome is Switched
            || outcome is SwitchedAndBlocked,
    }
}

/// How many entries have an outcome in `tally`.
pub open spec fn tally_of(entries: Seq<Entry<Outcome>>, tally: Tally) -> nat
    decreases entries.len(),
{
    if entries.len() == 0 {
        0
    } else {
        tally_of(entries.drop_last(), tally) + if in_tally(entries.last().outcome, tally) {
            1nat
        } else {
            0nat
        }
    }
}

/// A refresh run fails exactly when some repository was skipped or
/// blocked: the failures are the skipped plus the blocked entries.
pub proof fn law_failures_are_skips_and_blocks(entries: Seq<Entry<Outcome>>)
    ensures
        tally_of(entries, Tally::Failure) == tally_of(entries, Tally::Skipped) + tally_of(
            entries,
            Tally::Blocked,
        ),
    decreases entries.len(),
{
    if entries.len() > 0 {
        law_failures_are_skips_and_blocks(entries.drop_last());
    }
}

pub fn outcome_in_tally(outcome: &Outcome, tally: Tally) -> (res: bool)
    ensures
        res == in_tally(*outcome, tally),
{
    match tally {
        Tally::Planned => match outcome {
            Outcome::Planned(_) => true,
            _ => false,
        },
        Tally::Refreshed => match outcome {
            Outcome::Refreshed { .. } | Outcome::Switched { .. } => true,
            _ => false,
        },
        Tally::Skipped => match outcome {
            Outcome::Skipped { .. } => true,
            _ => false,
        },
        Tally::Blocked => match outcome {
            Outcome::Blocked { .. } | Outcome::SwitchedAndBlocked { .. } => true,
            _ => false,
        },
        Tally::Failure => match outcome {
            Outcome::Skipped { .. } | Outcome::Blocked { .. } | Outcome::SwitchedAndBlocked {
                ..
            } => true,
            _ => false,
        },
        Tally::Changed => match outcome {
            Outcome::Refreshed { .. } | Outcome::Switched { .. } | Outcome::SwitchedAndBlocked {
                ..
            } => true,
            _ => false,
        },
    }
}

/// Counts the entries whose outcome is in `tally`.
pub fn count_tally(entries: &Vec<Entry<Outcome>>, tally: Tally) -> (n: usize)
    ensures
        n == tally_of(entries@, tally),
{
    let mut n: usize = 0;
    let mut i: usize = 0;
    while i < entries.len()
        invariant
            i <= entries@.len(),
            n <= i,
            n == tally_of(entries@.subrange(0, i as int), tally),
        decreases entries@.len() - i,
    {
        assert(entries@.subrange(0, i + 1).drop_last() == entries@.subrange(0, i as int));
        if outcome_in_tally(&entries[i].outcome, tally) {
            n = n + 1;
        }
        i = i + 1;
    }
    assert(entries@.subrange(0, i as int) == entries@);
    n
}

/// The summaries of the three phases.
#[derive(Debug, Clone, Copy, PartialEq, Eq)]
pub struct PhaseSummaries {
    pub checked: PhaseSummary,
    pub fetched: PhaseSummary,
    pub refreshed: PhaseSummary,
}

impl PhaseSummaries {
    pub fn new(checked: PhaseSummary, fetched: PhaseSummary, refreshed: PhaseSummary) -> (s:
        PhaseSummaries)
        ensures
            s.checked == checked,
            s.fetched == fetched,
            s.refreshed == refreshed,
    {
        PhaseSummaries { checked, fetched, refreshed }
    }

    pub fn checked(self) -> (s: PhaseSummary)
        ensures
            s == self.checked,
    {
        self.checked
    }

    pub fn fetched(self) -> (s: PhaseSummary)
        ensures
            s == self.fetched,
    {
        self.fetched
    }

    pub fn refreshed(self) -> (s: PhaseSummary)
        ensures
            s == self.refreshed,
    {
        self.refreshed
    }
}

/// The result of a refresh run.
#[derive(Debug, PartialEq, Eq)]
pub struct Report {
    pub entries: Vec<Entry<Outcome>>,
    pub elapsed: Duration,
    pub phases: PhaseSummaries,
}

impl Report {
    pub fn new(entries: Vec<Entry<Outcome>>, elapsed: Duration, phases: PhaseSummaries) -> (r:
        Report)
        ensures
            r.entries == entries,
            r.elapsed == elapsed,
            r.phases == phases,
    {
        Report { entries, elapsed, phases }
    }

    pub fn entries(&self) -> (e: &[Entry<Outcome>])
        ensures
            e@ == self.entries@,
    {
        self.entries.as_slice()
    }

    pub fn elapsed(&self) -> (d: Duration)
        ensures
            d == self.elapsed,
    {
        self.elapsed
    }

    pub fn phases(&self) -> (p: PhaseSummaries)
        ensures
            p == self.phases,
    {
        self.phases
    }

    pub fn total(&self) -> (n: usize)
        ensures
            n == self.entries@.len(),
    {
        self.entries.len()
    }

    pub fn planned(&self) -> (n: usize)
        ensures
            n == tally_of(self.entries@, Tally::Planned),
    {
        count_tally(&self.entries, Tally::Planned)
    }

    pub fn refreshed(&self) -> (n: usize)
        ensures
            n == tally_of(self.entries@, Tally::Refreshed),
    {
        count_tally(&self.entries, Tally::Refreshed)
    }

    pub fn skipped(&self) -> (n: usize)
        ensures
            n == tally_of(self.entries@, Tally::Skipped),
    {
        count_tally(&self.entries, Tally::Skipped)
    }

    pub fn blocked(&self) -> (n: usize)
        ensures
            n == tally_of(self.entries@, Tally::Blocked),
    {
        count_tally(&self.entries, Tally::Blocked)
    }

    /// Whether any repository was skipped or blocked.
    pub fn has_failures(&self) -> (res: bool)
        ensures
            res == (tally_of(self.entries@, Tally::Failure) > 0),
    {
        count_tally(&self.entries, Tally::Failure) > 0
    }
}

} // verus!
