//! The vocabulary and report of a sync run.

use vstd::prelude::*;
use std::time::Duration;
use crate::app::entry::Entry;
use crate::app::events::PhaseSummary;
use crate::app::inspection::{
    ahead_of_origin, ahead_of_origin_text, destination_not_git_repository,
    destination_not_git_repository_text, diverged, diverged_text, missing_local_branch,
    missing_local_branch_text, missing_origin, missing_origin_text, missing_remote_branch,
    missing_remote_branch_text, missing_remote_default_branch,
    missing_remote_default_branch_text, remote_url_mismatch, remote_url_mismatch_text,
};
use crate::cache::Outcome as CacheOutcome;

verus! {

/// What a dry run would do to a repository.
#[derive(Debug, Clone, PartialEq, Eq)]
pub enum Plan {
    Clone { url: String },
    Fetch { branch: String },
}

#[derive(Debug, Clone, PartialEq, Eq)]
pub enum SkippedReason {
    DirtyWorkingTree,
}

impl SkippedReason {
    pub fn message(&self) -> (m: &'static str)
        ensures
            m@ == "dirty working tree"@,
    {
        match self {
            SkippedReason::DirtyWorkingTree => "dirty working tree",
        }
    }
}

#[derive(Debug, Clone, PartialEq, Eq)]
pub enum BlockedReason {
    DestinationNotGitRepository,
    MissingOrigin,
    RemoteUrlMismatch,
    DetachedHead,
    FetchFailed(String),
    MissingRemoteDefaultBranch,
    MissingLocalBranch { branch: String },
    MissingRemoteBranch { branch: String },
    Diverged { branch: String },
    AheadOfOrigin { branch: String },
    UpdateFailed(String),
    CloneFailed(String),
}

/// The text shown for a blocked repository.
pub open spec fn blocked_text(reason: BlockedReason) -> Seq<char> {
    match reason {
        BlockedReason::DestinationNotGitRepository => destination_not_git_repository_text(),
        BlockedReason::MissingOrigin => missing_origin_text(),
        BlockedReason::RemoteUrlMismatch => remote_url_mismatch_text(),
        BlockedReason::DetachedHead => "detached HEAD cannot be restored safely"@,
        BlockedReason::FetchFailed(m) => m@,
        BlockedReason::MissingRemoteDefaultBranch => missing_remote_default_branch_text(),
        BlockedReason::MissingLocalBranch { branch } => missing_local_branch_text(branch@),
        BlockedReason::MissingRemoteBranch { branch } => missing_remote_branch_text(branch@),
        BlockedReason::Diverged { branch } => diverged_text(branch@),
        BlockedReason::AheadOfOrigin { branch } => ahead_of_origin_text(branch@),
        BlockedReason::UpdateFailed(m) => m@,
        BlockedReason::CloneFailed(m) => m@,
    }
}

impl BlockedReason {
    pub fn message(&self) -> (m: String)
        ensures
            m@ == blocked_text(*self),
    {
        match self {
            BlockedReason::DestinationNotGitRepository => destination_not_git_repository(),
            BlockedReason::MissingOrigin => missing_origin(),
            BlockedReason::RemoteUrlMismatch => remote_url_mismatch(),
            BlockedReason::DetachedHead => String::from_str(
                "detached HEAD cannot be restored safely",
            ),
            BlockedReason::FetchFailed(m) => m.clone(),
            BlockedReason::MissingRemoteDefaultBranch => missing_remote_default_branch(),
            BlockedReason::MissingLocalBranch { branch } => missing_local_branch(branch.as_str()),
            BlockedReason::MissingRemoteBranch { branch } => missing_remote_branch(
                branch.as_str(),
            ),
            BlockedReason::Diverged { branch } => diverged(branch.as_str()),
            BlockedReason::AheadOfOrigin { branch } => ahead_of_origin(branch.as_str()),
            BlockedReason::UpdateFailed(m) => m.clone(),
            BlockedReason::CloneFailed(m) => m.clone(),
        }
    }
}

/// What happened to one repository during sync.
#[derive(Debug, Clone, PartialEq, Eq)]
pub enum Outcome {
    Planned(Plan),
    Cloned { url: String, cache: CacheOutcome },
    Updated { branch: String, before: String, after: String },
    UpdatedButRestorationFailed { branch: String, before: String, after: String, message: String },
    Current { branch: String },
    Skipped { reason: SkippedReason },
    Blocked { reason: BlockedReason },
}

/// An outcome that changed nothing on disk: planned, skipped or blocked.
pub open spec fn leaves_untouched(outcome: Outcome) -> bool {
    outcome is Planned || outcome is Skipped || outcome is Blocked
}

/// Where an outcome stands among those of one repository when a report is
/// listed: clones first, then updates, skips, blocks, and what changed nothing.
pub open spec fn change_rank_of(outcome: Outcome) -> u8 {
    match outcome {
        Outcome::Planned(Plan::Clone { .. }) | Outcome::Cloned { .. } => 0,
        Outcome::Updated { .. } | Outcome::UpdatedButRestorationFailed { .. } => 1,
        Outcome::Skipped { .. } => 2,
        Outcome::Blocked { .. } => 3,
        Outcome::Planned(Plan::Fetch { .. }) | Outcome::Current { .. } => 4,
    }
}

pub fn change_rank(outcome: &Outcome) -> (rank: u8)
    ensures
        rank == change_rank_of(*outcome),
{
    match outcome {
        Outcome::Planned(Plan::Clone { .. }) | Outcome::Cloned { .. } => 0,
        Outcome::Updated { .. } | Outcome::UpdatedButRestorationFailed { .. } => 1,
        Outcome::Skipped { .. } => 2,
        Outcome::Blocked { .. } => 3,
        Outcome::Planned(Plan::Fetch { .. }) | Outcome::Current { .. } => 4,
    }
}

/// The groups of outcomes a report counts.
#[derive(Debug, Clone, Copy, PartialEq, Eq)]
pub enum Tally {
    PlannedClone,
    PlannedFetch,
    Cloned,
    Updated,
    Skipped,
    Blocked,
    /// Outcomes that make the run fail: skipped, blocked, or updated but not
    /// put back on the original branch.
    Failure,
}

pub open spec fn in_tally(outcome: Outcome, tally: Tally) -> bool {
    match tally {
        Tally::PlannedClone => outcome matches Outcome::Planned(Plan::Clone { .. }),
        Tally::PlannedFetch => outcome matches Outcome::Planned(Plan::Fetch { .. }),
        Tally::Cloned => outcome is Cloned,
        Tally::Updated => outcome is Updated || outcome is UpdatedButRestorationFailed,
        Tally::Skipped => outcome is Skipped,
        Tally::Blocked => outcome is Blocked,
        Tally::Failure => outcome is Skipped || outcome is Blocked
            || outcome is UpdatedButRestorationFailed,
    }
}

/// How many entries have an outcome in `tally`.
pub open spec fn tally_of(entries: Seq<Entry<Outcome>>, tally: Tally) -> nat
    decreases entries.len(),
{
    if entries.len() == 0 {
        0
    } else {
        tally_of(entries.drop_last(), tally) + if in_tally(entries.last().outcome, tally) {
            1nat
        } else {
            0nat
        }
    }
}

/// How many filled slots hold an outcome in `tally`.
pub open spec fn slot_tally(slots: Seq<Option<Entry<Outcome>>>, tally: Tally) -> nat
    decreases slots.len(),
{
    if slots.len() == 0 {
        0
    } else {
        slot_tally(slots.drop_last(), tally) + match slots.last() {
            Some(e) => if in_tally(e.outcome, tally) {
                1nat
            } else {
                0nat
            },
            None => 0nat,
        }
    }
}

/// Filling an empty slot adds the new entry to the count.
pub proof fn lemma_slot_tally_fill(slots: Seq<Option<Entry<Outcome>>>, i: int, e: Entry<Outcome>, tally: Tally)
    requires
        0 <= i < slots.len(),
        slots[i] is None,
    ensures
        slot_tally(slots.update(i, Some(e)), tally) == slot_tally(slots, tally) + if in_tally(
            e.outcome,
            tally,
        ) {
            1nat
        } else {
            0nat
        },
    decreases slots.len(),
{
    let after = slots.update(i, Some(e));
    if i == slots.len() - 1 {
        assert(after.drop_last() =~= slots.drop_last());
    } else {
        lemma_slot_tally_fill(slots.drop_last(), i, e, tally);
        assert(after.drop_last() =~= slots.drop_last().update(i, Some(e)));
    }
}

/// No filled slot is in the tally: the count is zero.
pub proof fn lemma_slot_tally_none(slots: Seq<Option<Entry<Outcome>>>, tally: Tally)
    requires
        forall|j: int|
            0 <= j < slots.len() ==> match #[trigger] slots[j] {
                Some(e) => !in_tally(e.outcome, tally),
                None => true,
            },
    ensures
        slot_tally(slots, tally) == 0,
    decreases slots.len(),
{
    if slots.len() > 0 {
        let prev = slots.drop_last();
        assert forall|j: int| 0 <= j < prev.len() implies match #[trigger] prev[j] {
            Some(e) => !in_tally(e.outcome, tally),
            None => true,
        } by {
            assert(prev[j] == slots[j]);
        }
        lemma_slot_tally_none(prev, tally);
        assert(slots.last() == slots[slots.len() - 1]);
    }
}

/// No entry is in the tally: the count is zero.
pub proof fn lemma_tally_none(entries: Seq<Entry<Outcome>>, tally: Tally)
    requires
        forall|k: int| 0 <= k < entries.len() ==> !in_tally((#[trigger] entries[k]).outcome, tally),
    ensures
        tally_of(entries, tally) == 0,
    decreases entries.len(),
{
    if entries.len() > 0 {
        let prev = entries.drop_last();
        assert forall|k: int| 0 <= k < prev.len() implies !in_tally((#[trigger] prev[k]).outcome, tally) by {
            assert(prev[k] == entries[k]);
        }
        lemma_tally_none(prev, tally);
        assert(entries.last() == entries[entries.len() - 1]);
    }
}

/// Filled slots count as their entries do, and entries with the same
/// outcomes count the same.
pub proof fn lemma_slot_tally_entries(
    slots: Seq<Option<Entry<Outcome>>>,
    entries: Seq<Entry<Outcome>>,
    tally: Tally,
)
    requires
        slots.len() == entries.len(),
        forall|k: int| 0 <= k < slots.len() ==> ((#[trigger] slots[k]) matches Some(e) && e.outcome == entries[k].outcome),
    ensures
        slot_tally(slots, tally) == tally_of(entries, tally),
    decreases slots.len(),
{
    if slots.len() > 0 {
        let (a, b) = (slots.drop_last(), entries.drop_last());
        assert forall|k: int| 0 <= k < a.len() implies ((#[trigger] a[k]) matches Some(e) && e.outcome == b[k].outcome) by {
            assert(a[k] == slots[k]);
            assert(b[k] == entries[k]);
        }
        lemma_slot_tally_entries(a, b, tally);
        assert(slots.last() == slots[slots.len() - 1]);
    }
}

/// No skipped or blocked repository goes unnoticed: each counts as a
/// failure of the run (as does an update that left the original branch
/// unrestored).
pub proof fn law_skips_and_blocks_are_failures(entries: Seq<Entry<Outcome>>)
    ensures
        tally_of(entries, Tally::Skipped) + tally_of(entries, Tally::Blocked) <= tally_of(
            entries,
            Tally::Failure,
        ),
    decreases entries.len(),
{
    if entries.len() > 0 {
        law_skips_and_blocks_are_failures(entries.drop_last());
    }
}

fn outcome_in_tally(outcome: &Outcome, tally: Tally) -> (res: bool)
    ensures
        res == in_tally(*outcome, tally),
{
    match tally {
        Tally::PlannedClone => match outcome {
            Outcome::Planned(Plan::Clone { .. }) => true,
            _ => false,
        },
        Tally::PlannedFetch => match outcome {
            Outcome::Planned(Plan::Fetch { .. }) => true,
            _ => false,
        },
        Tally::Cloned => match outcome {
            Outcome::Cloned { .. } => true,
            _ => false,
        },
        Tally::Updated => match outcome {
            Outcome::Updated { .. } | Outcome::UpdatedButRestorationFailed { .. } => true,
            _ => false,
        },
        Tally::Skipped => match outcome {
            Outcome::Skipped { .. } => true,
            _ => false,
        },
        Tally::Blocked => match outcome {
            Outcome::Blocked { .. } => true,
            _ => false,
        },
        Tally::Failure => match outcome {
            Outcome::Skipped { .. } | Outcome::Blocked { .. }
            | Outcome::UpdatedButRestorationFailed { .. } => true,
            _ => false,
        },
    }
}

/// Counts the entries whose outcome is in `tally`.
pub fn count_tally(entries: &Vec<Entry<Outcome>>, tally: Tally) -> (n: usize)
    ensures
        n == tally_of(entries@, tally),
{
    let mut n: usize = 0;
    let mut i: usize = 0;
    while i < entries.len()
        invariant
            i <= entries@.len(),
            n <= i,
            n == tally_of(entries@.subrange(0, i as int), tally),
        decreases entries@.len() - i,
    {
        assert(entries@.subrange(0, i + 1).drop_last() == entries@.subrange(0, i as int));
        if outcome_in_tally(&entries[i].outcome, tally) {
            n = n + 1;
        }
        i = i + 1;
    }
    assert(entries@.subrange(0, i as int) == entries@);
    n
}

/// The summaries of the three counted phases.
#[derive(Debug, Clone, Copy, PartialEq, Eq)]
pub struct PhaseSummaries {
    pub checked: PhaseSummary,
    pub prepared: PhaseSummary,
    pub updated: PhaseSummary,
}

impl PhaseSummaries {
    pub fn new(checked: PhaseSummary, prepared: PhaseSummary, updated: PhaseSummary) -> (s:
        PhaseSummaries)
        ensures
            s.checked == checked,
            s.prepared == prepared,
            s.updated == updated,
    {
        PhaseSummaries { checked, prepared, updated }
    }

    pub fn checked(self) -> (s: PhaseSummary)
        ensures
            s == self.checked,
    {
        self.checked
    }

    pub fn prepared(self) -> (s: PhaseSummary)
        ensures
            s == self.prepared,
    {
        self.prepared
    }

    pub fn updated(self) -> (s: PhaseSummary)
        ensures
            s == self.updated,
    {
        self.updated
    }
}

/// What registering a repository with zoxide came to.
#[derive(Debug, Clone, PartialEq, Eq)]
pub enum ZoxideOutcome {
    WouldRegister,
    Added,
    AlreadyRegistered,
    Failed(String),
}

#[derive(Debug, Clone, PartialEq, Eq)]
pub struct ZoxideEntry {
    pub repository: String,
    pub outcome: ZoxideOutcome,
}

impl ZoxideEntry {
    pub fn new(repository: String, outcome: ZoxideOutcome) -> (e: ZoxideEntry)
        ensures
            e.repository == repository,
            e.outcome == outcome,
    {
        ZoxideEntry { repository, outcome }
    }

    pub fn repository(&self) -> (r: &str)
        ensures
            r@ == self.repository@,
    {
        self.repository.as_str()
    }

    pub fn outcome(&self) -> (o: &ZoxideOutcome)
        ensures
            *o == self.outcome,
    {
        &self.outcome
    }
}

/// The zoxide part of a sync report: one entry per registered repository, or
/// the reason zoxide could not be used at all.
#[derive(Debug, Clone, PartialEq, Eq)]
pub struct ZoxideReport {
    pub entries: Vec<ZoxideEntry>,
    pub unavailable: Option<String>,
}

impl ZoxideReport {
    /// Whether registration failed for zoxide as a whole or for any entry.
    pub open spec fn failing(&self) -> bool {
        self.unavailable is Some || exists|i: int|
            0 <= i < self.entries@.len() && #[trigger] self.entries@[i].outcome is Failed
    }

    pub fn new(entries: Vec<ZoxideEntry>) -> (r: ZoxideReport)
        ensures
            r.entries == entries,
            r.unavailable is None,
    {
        ZoxideReport { entries, unavailable: None }
    }

    pub fn unavailable(message: String) -> (r: ZoxideReport)
        ensures
            r.entries@.len() == 0,
            r.unavailable == Some(message),
    {
        ZoxideReport { entries: Vec::new(), unavailable: Some(message) }
    }

    pub fn entries(&self) -> (e: &[ZoxideEntry])
        ensures
            e@ == self.entries@,
    {
        self.entries.as_slice()
    }

    pub fn unavailable_message(&self) -> (m: Option<&str>)
        ensures
            match m {
                Some(m) => self.unavailable matches Some(u) && m@ == u@,
                None => self.unavailable is None,
            },
    {
        match &self.unavailable {
            Some(u) => Some(u.as_str()),
            None => None,
        }
    }

    pub fn has_failures(&self) -> (res: bool)
        ensures
            res == self.failing(),
    {
        if self.unavailable.is_some() {
            return true;
        }
        let mut i: usize = 0;
        while i < self.entries.len()
            invariant
                i <= self.entries@.len(),
                self.unavailable is None,
                forall|j: int| 0 <= j < i ==> !(#[trigger] self.entries@[j].outcome is Failed),
            decreases self.entries@.len() - i,
        {
            if let ZoxideOutcome::Failed(_) = &self.entries[i].outcome {
                assert(self.entries@[i as int].outcome is Failed);
                return true;
            }
            i = i + 1;
        }
        false
    }
}

/// The result of a sync run.
#[derive(Debug, PartialEq, Eq)]
pub struct Report {
    pub entries: Vec<Entry<Outcome>>,
    pub elapsed: Duration,
    pub phases: PhaseSummaries,
    pub zoxide: Option<ZoxideReport>,
}

impl Report {
    pub fn new(
        entries: Vec<Entry<Outcome>>,
        elapsed: Duration,
        phases: PhaseSummaries,
        zoxide: Option<ZoxideReport>,
    ) -> (r: Report)
        ensures
            r.entries == entries,
            r.elapsed == elapsed,
            r.phases == phases,
            r.zoxide == zoxide,
    {
        Report { entries, elapsed, phases, zoxide }
    }

    pub fn entries(&self) -> (e: &[Entry<Outcome>])
        ensures
            e@ == self.entries@,
    {
        self.entries.as_slice()
    }

    pub fn elapsed(&self) -> (d: Duration)
        ensures
            d == self.elapsed,
    {
        self.elapsed
    }

    pub fn phases(&self) -> (p: PhaseSummaries)
        ensures
            p == self.phases,
    {
        self.phases
    }

    pub fn zoxide(&self) -> (z: Option<&ZoxideReport>)
        ensures
            match z {
                Some(z) => self.zoxide == Some(*z),
                None => self.zoxide is None,
            },
    {
        self.zoxide.as_ref()
    }

    pub fn total(&self) -> (n: usize)
        ensures
            n == self.entries@.len(),
    {
        self.entries.len()
    }

    pub fn planned_clones(&self) -> (n: usize)
        ensures
            n == tally_of(self.entries@, Tally::PlannedClone),
    {
        count_tally(&self.entries, Tally::PlannedClone)
    }

    pub fn planned_fetches(&self) -> (n: usize)
        ensures
            n == tally_of(self.entries@, Tally::PlannedFetch),
    {
        count_tally(&self.entries, Tally::PlannedFetch)
    }

    pub fn cloned(&self) -> (n: usize)
        ensures
            n == tally_of(self.entries@, Tally::Cloned),
    {
        count_tally(&self.entries, Tally::Cloned)
    }

    pub fn updated(&self) -> (n: usize)
        ensures
            n == tally_of(self.entries@, Tally::Updated),
    {
        count_tally(&self.entries, Tally::Updated)
    }

    pub fn skipped(&self) -> (n: usize)
        ensures
            n == tally_of(self.entries@, Tally::Skipped),
    {
        count_tally(&self.entries, Tally::Skipped)
    }

    pub fn blocked(&self) -> (n: usize)
        ensures
            n == tally_of(self.entries@, Tally::Blocked),
    {
        count_tally(&self.entries, Tally::Blocked)
    }

    /// Whether any repository was skipped, blocked, or left off its original
    /// branch, or zoxide registration failed.
    pub fn has_failures(&self) -> (res: bool)
        ensures
            res == (tally_of(self.entries@, Tally::Failure) > 0 || (self.zoxide matches Some(z)
                && z.failing())),
    {
        if count_tally(&self.entries, Tally::Failure) > 0 {
            return true;
        }
        match &self.zoxide {
            Some(z) => z.has_failures(),
            None => false,
        }
    }
}

} // verus!
