//! The `refresh` use case: put every existing repository on its default
//! branch and fast-forward it.

use vstd::prelude::*;

pub mod check;
pub mod report;
pub mod tasks;
pub mod update;

pub use report::{change_rank, BlockedReason, Outcome, PhaseSummaries, Plan, Report, SkippedReason};

use crate::app::context::{AppContext, Clock};
use crate::app::entry::{complete_entries, one_entry_each, slot_names, Entry};
use crate::app::events::{EventSink, PhaseSummary};
use crate::config::load::{ConfigFiles, load, resolved_from_valid_tree};
use crate::error::AppError;
use crate::git::{GitClient, GitRefreshOutcome};
use crate::repositories::{picked, RepositoryDefinition, select_repositories, selection_of};
use crate::zoxide::ZoxideClient;
use check::{check_observed, check_repository, checked, Decision};
use crate::app::sync::check::CheckAnswers;
use update::refresh_result;
use report::{leaves_untouched, outcome_in_tally, Tally};
use tasks::{conflict_blocked, fetch_completed, fetch_completion, in_conflict, plan_dry_runs, refreshable_tasks, routes_conflicts, Task};

verus! {

/// The phases of a refresh run, in the order they run.
#[derive(Debug, Clone, Copy, PartialEq, Eq)]
pub enum Phase {
    Checking,
    Fetching,
    Refreshing,
}

pub open spec fn phase_text(phase: Phase) -> Seq<char> {
    match phase {
        Phase::Checking => "Checking repositories..."@,
        Phase::Fetching => "Fetching repositories..."@,
        Phase::Refreshing => "Refreshing repositories..."@,
    }
}

impl Phase {
    /// The progress line shown while the phase runs.
    pub fn message(self) -> (m: &'static str)
        ensures
            m@ == phase_text(self),
    {
        match self {
            Phase::Checking => "Checking repositories...",
            Phase::Fetching => "Fetching repositories...",
            Phase::Refreshing => "Refreshing repositories...",
        }
    }
}

/// How a refresh run behaves.
#[derive(Debug, Clone, Copy, PartialEq, Eq)]
pub struct RefreshOptions {
    pub dry_run: bool,
}

impl RefreshOptions {
    pub fn new(dry_run: bool) -> (o: RefreshOptions)
        ensures
            o.dry_run == dry_run,
    {
        RefreshOptions { dry_run }
    }

    pub fn dry_run(self) -> (b: bool)
        ensures
            b == self.dry_run,
    {
        self.dry_run
    }
}

/// The selected repositories, copied out of the configuration in order.
pub fn selected_repositories(repositories: &[RepositoryDefinition], selected: &Vec<usize>) -> (out: Vec<
    RepositoryDefinition,
>)
    requires
        forall|k: int| 0 <= k < selected@.len() ==> selected@[k] < repositories@.len(),
    ensures
        out@.len() == selected@.len(),
        forall|k: int| 0 <= k < selected@.len() ==> #[trigger] out@[k] == repositories@[selected@[k] as int],
{
    let mut out: Vec<RepositoryDefinition> = Vec::new();
    let mut k: usize = 0;
    while k < selected.len()
        invariant
            k <= selected@.len(),
            forall|j: int| 0 <= j < selected@.len() ==> selected@[j] < repositories@.len(),
            out@.len() == k,
            forall|j: int| 0 <= j < k ==> #[trigger] out@[j] == repositories@[selected@[j] as int],
        decreases selected@.len() - k,
    {
        out.push(repositories[selected[k]].duplicate());
        k = k + 1;
    }
    out
}

/// `n` empty slots.
pub fn empty_slots<O>(n: usize) -> (slots: Vec<Option<Entry<O>>>)
    ensures
        slots@.len() == n,
        forall|k: int| 0 <= k < n ==> (#[trigger] slots@[k]) is None,
{
    let mut slots: Vec<Option<Entry<O>>> = Vec::new();
    let mut k: usize = 0;
    while k < n
        invariant
            k <= n,
            slots@.len() == k,
            forall|j: int| 0 <= j < k ==> (#[trigger] slots@[j]) is None,
        decreases n - k,
    {
        slots.push(None);
        k = k + 1;
    }
    slots
}

/// Every filled slot holds an outcome that changed nothing.
pub open spec fn untouched_slots(slots: Seq<Option<Entry<Outcome>>>) -> bool {
    forall|j: int|
        #![trigger slots[j]]
        0 <= j < slots.len() ==> match slots[j] {
            Some(e) => leaves_untouched(e.outcome),
            None => true,
        }
}

/// Task positions increase.
pub open spec fn increasing(tasks: Seq<Task>) -> bool {
    forall|i: int, j: int| 0 <= i < j < tasks.len() ==> (#[trigger] tasks[i]).index < (#[trigger] tasks[j]).index
}

/// No filled slot is blocked by a worktree conflict.
pub open spec fn no_conflict_slots(slots: Seq<Option<Entry<Outcome>>>) -> bool {
    forall|j: int|
        #![trigger slots[j]]
        0 <= j < slots.len() ==> match slots[j] {
            Some(e) => !conflict_blocked(e.outcome),
            None => true,
        }
}

/// The slots of the first `done` tasks follow the conflict rule, those of
/// the others are still empty, and no other slot is blocked by a conflict.
pub open spec fn routes_slots(slots: Seq<Option<Entry<Outcome>>>, tasks: Seq<Task>, done: int) -> bool {
    &&& 0 <= done <= tasks.len()
    &&& forall|i: int| 0 <= i < tasks.len() ==> (#[trigger] tasks[i]).index < slots.len()
    &&& increasing(tasks)
    &&& forall|i: int|
        0 <= i < done ==> match slots[(#[trigger] tasks[i]).index as int] {
            Some(e) => (in_conflict(tasks, i) ==> (e.outcome matches Outcome::Blocked {
                reason: BlockedReason::LinkedWorktreeDefaultBranchConflict { branch },
            } && branch@ == tasks[i].default_branch@)) && (!in_conflict(tasks, i)
                ==> !conflict_blocked(e.outcome)),
            None => false,
        }
    &&& forall|i: int| done <= i < tasks.len() ==> slots[(#[trigger] tasks[i]).index as int] is None
    &&& forall|j: int|
        #![trigger slots[j]]
        0 <= j < slots.len() ==> match slots[j] {
            Some(e) => conflict_blocked(e.outcome) ==> exists|i: int|
                0 <= i < done && (#[trigger] tasks[i]).index == j,
            None => true,
        }
}

/// Whether an entry follows the conflict rule for task `i`.
pub open spec fn routed_entry(e: Entry<Outcome>, tasks: Seq<Task>, i: int) -> bool {
    &&& in_conflict(tasks, i) ==> (e.outcome matches Outcome::Blocked {
        reason: BlockedReason::LinkedWorktreeDefaultBranchConflict { branch },
    } && branch@ == tasks[i].default_branch@)
    &&& !in_conflict(tasks, i) ==> !conflict_blocked(e.outcome)
}

/// Filling the slot of the next task with an entry that follows the rule
/// keeps the slots routed.
proof fn lemma_route_step(
    before: Seq<Option<Entry<Outcome>>>,
    after: Seq<Option<Entry<Outcome>>>,
    tasks: Seq<Task>,
    k: int,
    e: Entry<Outcome>,
)
    requires
        routes_slots(before, tasks, k),
        k < tasks.len(),
        routed_entry(e, tasks, k),
        after == before.update(tasks[k].index as int, Some(e)),
    ensures
        routes_slots(after, tasks, k + 1),
{
    let at = tasks[k].index as int;
    assert forall|j: int| 0 <= j < tasks.len() && j != k implies (#[trigger] tasks[j]).index != at by {
        if j < k {
            assert(tasks[j].index < tasks[k].index);
        } else {
            assert(tasks[k].index < tasks[j].index);
        }
    }
    assert forall|i: int|
        0 <= i < k + 1 implies match after[(#[trigger] tasks[i]).index as int] {
            Some(x) => (in_conflict(tasks, i) ==> (x.outcome matches Outcome::Blocked {
                reason: BlockedReason::LinkedWorktreeDefaultBranchConflict { branch },
            } && branch@ == tasks[i].default_branch@)) && (!in_conflict(tasks, i)
                ==> !conflict_blocked(x.outcome)),
            None => false,
        } by {
        if i < k {
            assert(after[tasks[i].index as int] == before[tasks[i].index as int]);
        }
    }
    assert forall|i: int| k + 1 <= i < tasks.len() implies after[(#[trigger] tasks[i]).index as int] is None by {
        assert(after[tasks[i].index as int] == before[tasks[i].index as int]);
    }
    assert forall|j: int|
        #![trigger after[j]]
        0 <= j < after.len() implies match after[j] {
            Some(x) => conflict_blocked(x.outcome) ==> exists|i: int|
                0 <= i < k + 1 && (#[trigger] tasks[i]).index == j,
            None => true,
        } by {
        if j == at {
            assert(tasks[k].index == j);
        } else {
            assert(after[j] == before[j]);
            if let Some(x) = before[j] {
                if conflict_blocked(x.outcome) {
                    let i = choose|i: int| 0 <= i < k && (#[trigger] tasks[i]).index == j;
                    assert(0 <= i < k + 1 && tasks[i].index == j);
                }
            }
        }
    }
}

/// Routed slots, once all filled, give routed entries.
proof fn lemma_routes_entries(slots: Seq<Option<Entry<Outcome>>>, entries: Seq<Entry<Outcome>>, tasks: Seq<Task>)
    requires
        routes_slots(slots, tasks, tasks.len() as int),
        entries.len() == slots.len(),
        forall|k: int| 0 <= k < slots.len() ==> slots[k] == Some(#[trigger] entries[k]),
    ensures
        routes_conflicts(entries, tasks),
{
    assert forall|i: int| 0 <= i < tasks.len() implies (in_conflict(tasks, i) ==> (entries[(#[trigger] tasks[i]).index as int].outcome matches Outcome::Blocked {
        reason: BlockedReason::LinkedWorktreeDefaultBranchConflict { branch },
    } && branch@ == tasks[i].default_branch@)) by {
        assert(slots[tasks[i].index as int] == Some(entries[tasks[i].index as int]));
    }
    assert forall|i: int| 0 <= i < tasks.len() implies (!in_conflict(tasks, i) ==> !conflict_blocked(
        entries[(#[trigger] tasks[i]).index as int].outcome,
    )) by {
        assert(slots[tasks[i].index as int] == Some(entries[tasks[i].index as int]));
    }
    assert forall|k: int| 0 <= k < entries.len() implies (conflict_blocked((#[trigger] entries[k]).outcome) ==> exists|i: int|
        0 <= i < tasks.len() && (#[trigger] tasks[i]).index == k) by {
        assert(slots[k] == Some(entries[k]));
    }
}

/// The check decided `d` for the repository on some answers `git` gave.
pub open spec fn was_checked<G: GitClient>(git: &G, repository: RepositoryDefinition, dry_run: bool, d: Decision) -> bool {
    exists|a: CheckAnswers| #[trigger] checked(repository, dry_run, a, Ok::<Decision, AppError>(d))
        && check_observed(git, repository, dry_run, a)
}

/// The entry is blocked because another worktree claims `branch` too.
pub open spec fn conflict_on(e: Entry<Outcome>, branch: Seq<char>) -> bool {
    e.outcome matches Outcome::Blocked {
        reason: BlockedReason::LinkedWorktreeDefaultBranchConflict { branch: b },
    } && b@ == branch
}

/// The entry a decision comes to: a final decision is its own entry; a dry
/// run is planned onto the default branch, or blocked by a worktree
/// conflict; a fetch is what `fetch_completion` makes of Git's failed
/// fetch, a worktree conflict, or else the outcome that `refresh_outcome`
/// gives for Git's answer to the refresh.
pub open spec fn settled<G: GitClient>(git: &G, repository: RepositoryDefinition, d: Decision, e: Entry<Outcome>) -> bool {
    match d {
        Decision::Entry(x) => e == x,
        Decision::DryRun { common_directory: _, default_branch } => e.repository@
            == repository.display_path_view() && (e.outcome == Outcome::Planned(
            Plan { branch: default_branch },
        ) || conflict_on(e, default_branch@)),
        Decision::Fetch { common_directory: _, default_branch } => {
            ||| exists|f: Result<(), AppError>, c: Result<Option<Entry<Outcome>>, AppError>|
                #[trigger] fetch_completed(repository, f, c) && git.fetches(repository.path_view(), f)
                    && c == Ok::<Option<Entry<Outcome>>, AppError>(Some(e))
            ||| e.repository@ == repository.display_path_view() && conflict_on(e, default_branch@)
            ||| e.repository@ == repository.display_path_view() && e.blocked_details is None && exists|
                r: Result<GitRefreshOutcome, AppError>,
            | #[trigger] refresh_result(default_branch@, r, e.outcome) && git.refreshes(
                repository.path_view(),
                default_branch@,
                r,
            )
        },
    }
}

/// The entry refresh reports for a repository: what some decision of the
/// check came to, on the answers of `git`.
pub open spec fn reported<G: GitClient>(git: &G, repository: RepositoryDefinition, dry_run: bool, e: Entry<Outcome>) -> bool {
    exists|d: Decision| #[trigger] settled(git, repository, d, e) && was_checked(git, repository, dry_run, d)
}

/// Every filled slot holds what refresh reports for its repository.
pub open spec fn reported_slots<G: GitClient>(git: &G, slots: Seq<Option<Entry<Outcome>>>, repositories: Seq<RepositoryDefinition>, dry_run: bool) -> bool {
    forall|j: int|
        #![trigger slots[j]]
        0 <= j < slots.len() ==> match slots[j] {
            Some(e) => reported(git, repositories[j], dry_run, e),
            None => true,
        }
}

/// The decision a fetch task carries out.
pub open spec fn fetch_decision(t: Task) -> Decision {
    Decision::Fetch { common_directory: t.common_directory, default_branch: t.default_branch }
}

/// The decision a dry-run task carries out.
pub open spec fn dry_run_decision(t: Task) -> Decision {
    Decision::DryRun { common_directory: t.common_directory, default_branch: t.default_branch }
}

/// `gv refresh`: check every selected repository, fetch the ready ones, and
/// put each on its fast-forwarded default branch. Worktrees of one
/// repository that share a default branch are all blocked. In a dry run,
/// nothing is fetched or changed.
pub fn execute_with_options<G: GitClient, Z: ZoxideClient, F: ConfigFiles, K: Clock, E: EventSink<Phase>>(
    ctx: &AppContext<G, Z>,
    files: &F,
    clock: &K,
    events: &E,
    config_path: Option<&str>,
    targets: &Vec<String>,
    options: RefreshOptions,
) -> (res: Result<Report, AppError>)
    ensures
        res matches Ok(r) ==> exists|configured: Seq<RepositoryDefinition>, idx: Seq<usize>|
            resolved_from_valid_tree(configured) && selection_of(configured, targets@, idx) && one_entry_each(
                r.entries@,
                picked(configured, idx),
            ) && forall|k: int|
                0 <= k < r.entries@.len() ==> reported(
                    &ctx.git,
                    picked(configured, idx)[k],
                    options.dry_run,
                    #[trigger] r.entries@[k],
                ),
        res matches Ok(r) ==> (options.dry_run ==> forall|k: int|
            0 <= k < r.entries@.len() ==> leaves_untouched((#[trigger] r.entries@[k]).outcome)),
        res matches Ok(r) ==> exists|tasks: Seq<Task>| #[trigger] routes_conflicts(r.entries@, tasks),
{
    let git = ctx.git();
    match git.verify_available() {
        Ok(()) => {},
        Err(e) => return Err(e),
    }
    let config = match load(files, config_path) {
        Ok(c) => c,
        Err(e) => return Err(e),
    };
    let selected = match select_repositories(config.repositories.as_slice(), targets) {
        Ok(s) => s,
        Err(e) => return Err(e),
    };
    let repositories = selected_repositories(config.repositories.as_slice(), &selected);
    let ghost configured = config.repositories@;
    assert(repositories@ =~= picked(configured, selected@));
    let n = repositories.len();
    let started = clock.mark();
    let mut slots: Vec<Option<Entry<Outcome>>> = empty_slots(n);

    // Check.
    let mark = clock.mark();
    let mut fetches: Vec<Task> = Vec::new();
    let mut dry_runs: Vec<Task> = Vec::new();
    events.phase_started(Phase::Checking, n)?;
    let mut i: usize = 0;
    while i < n
        invariant
            n == repositories@.len(),
            i <= n,
            slots@.len() == n,
            forall|k: int| 0 <= k < fetches@.len() ==> fetches@[k].index < n,
            forall|k: int| 0 <= k < dry_runs@.len() ==> dry_runs@[k].index < n,
            forall|k: int| 0 <= k < fetches@.len() ==> (#[trigger] fetches@[k]).index < i,
            forall|k: int| 0 <= k < dry_runs@.len() ==> (#[trigger] dry_runs@[k]).index < i,
            increasing(fetches@),
            increasing(dry_runs@),
            forall|k: int| 0 <= k < fetches@.len() ==> slots@[(#[trigger] fetches@[k]).index as int] is None,
            forall|k: int| 0 <= k < dry_runs@.len() ==> slots@[(#[trigger] dry_runs@[k]).index as int] is None,
            forall|j: int| i <= j < n ==> (#[trigger] slots@[j]) is None,
            no_conflict_slots(slots@),
            !options.dry_run ==> dry_runs@.len() == 0,
            slot_names(slots@, repositories@),
            options.dry_run ==> untouched_slots(slots@),
            options.dry_run ==> fetches@.len() == 0,
            reported_slots(git, slots@, repositories@, options.dry_run),
            forall|k: int|
                0 <= k < fetches@.len() ==> was_checked(
                    git,
                    repositories@[(#[trigger] fetches@[k]).index as int],
                    options.dry_run,
                    fetch_decision(fetches@[k]),
                ),
            forall|k: int|
                0 <= k < dry_runs@.len() ==> was_checked(
                    git,
                    repositories@[(#[trigger] dry_runs@[k]).index as int],
                    options.dry_run,
                    dry_run_decision(dry_runs@[k]),
                ),
        decreases n - i,
    {
        events.repository_started(repositories[i].display_path(), Phase::Checking)?;
        let decided = check_repository(git, &repositories[i], options.dry_run);
        let ghost decision = decided;
        proof {
            if decision is Ok {
                let a = choose|a: CheckAnswers| #[trigger] checked(repositories@[i as int], options.dry_run, a, decision)
                    && check_observed(git, repositories@[i as int], options.dry_run, a);
                assert(was_checked(git, repositories@[i as int], options.dry_run, decision->Ok_0));
            }
        }
        match decided {
            Ok(Decision::Entry(e)) => {
                assert(settled(git, repositories@[i as int], decision->Ok_0, e));
                slots.set(i, Some(e));
            },
            Ok(Decision::Fetch { common_directory, default_branch }) => fetches.push(
                Task::new(i, common_directory, default_branch),
            ),
            Ok(Decision::DryRun { common_directory, default_branch }) => dry_runs.push(
                Task::new(i, common_directory, default_branch),
            ),
            Err(e) => return Err(e),
        }
        events.repository_finished(repositories[i].display_path(), Phase::Checking)?;
        i = i + 1;
    }
    let checked = PhaseSummary::new(n, clock.elapsed_since(mark));
    events.phase_completed(Phase::Checking, checked)?;

    // Dry runs are planned, or blocked by a worktree conflict.
    let mut planned = plan_dry_runs(repositories.as_slice(), &dry_runs);
    let ghost plan = planned@;
    assert(routes_slots(slots@, dry_runs@, 0));
    let mut k: usize = 0;
    while k < dry_runs.len()
        invariant
            n == repositories@.len(),
            slots@.len() == n,
            k <= dry_runs@.len(),
            planned@.len() == dry_runs@.len() - k,
            plan.len() == dry_runs@.len(),
            planned@ == plan.skip(k as int),
            forall|j: int| 0 <= j < dry_runs@.len() ==> dry_runs@[j].index < n,
            forall|j: int|
                0 <= j < dry_runs@.len() ==> (#[trigger] plan[j]).repository@
                    == repositories@[dry_runs@[j].index as int].display_path_view()
                    && leaves_untouched(plan[j].outcome),
            forall|j: int|
                0 <= j < dry_runs@.len() ==> (in_conflict(dry_runs@, j) ==> ((#[trigger] plan[j]).outcome matches Outcome::Blocked {
                    reason: BlockedReason::LinkedWorktreeDefaultBranchConflict { branch },
                } && branch@ == dry_runs@[j].default_branch@)),
            forall|j: int|
                0 <= j < dry_runs@.len() ==> (!in_conflict(dry_runs@, j) ==> !conflict_blocked((#[trigger] plan[j]).outcome)),
            routes_slots(slots@, dry_runs@, k as int),
            forall|j: int| 0 <= j < fetches@.len() ==> slots@[(#[trigger] fetches@[j]).index as int] is None,
            increasing(fetches@),
            !options.dry_run ==> dry_runs@.len() == 0,
            slot_names(slots@, repositories@),
            options.dry_run ==> untouched_slots(slots@),
            options.dry_run ==> fetches@.len() == 0,
            reported_slots(git, slots@, repositories@, options.dry_run),
            forall|j: int|
                0 <= j < dry_runs@.len() ==> was_checked(
                    git,
                    repositories@[(#[trigger] dry_runs@[j]).index as int],
                    options.dry_run,
                    dry_run_decision(dry_runs@[j]),
                ),
            forall|j: int|
                0 <= j < dry_runs@.len() ==> !in_conflict(dry_runs@, j) ==> (#[trigger] plan[j]).outcome
                    == Outcome::Planned(Plan { branch: dry_runs@[j].default_branch }),
            forall|k: int|
                0 <= k < fetches@.len() ==> was_checked(
                    git,
                    repositories@[(#[trigger] fetches@[k]).index as int],
                    options.dry_run,
                    fetch_decision(fetches@[k]),
                ),
        decreases dry_runs@.len() - k,
    {
        assert(planned@[0] == plan[k as int]);
        let entry = planned.remove(0);
        assert(planned@ == plan.skip(k as int + 1));
        let ghost before = slots@;
        assert(routed_entry(entry, dry_runs@, k as int));
        assert(settled(git, repositories@[dry_runs@[k as int].index as int], dry_run_decision(dry_runs@[k as int]), entry));
        slots.set(dry_runs[k].index, Some(entry));
        proof {
            lemma_route_step(before, slots@, dry_runs@, k as int, entry);
        }
        k = k + 1;
    }

    // Fetch.
    let mark = clock.mark();
    let mut refreshes: Vec<Task> = Vec::new();
    let mut fetched_count: usize = 0;
    events.phase_started(Phase::Fetching, fetches.len())?;
    let mut k: usize = 0;
    while k < fetches.len()
        invariant
            n == repositories@.len(),
            slots@.len() == n,
            k <= fetches@.len(),
            fetched_count <= k,
            forall|j: int| 0 <= j < fetches@.len() ==> fetches@[j].index < n,
            forall|j: int| 0 <= j < refreshes@.len() ==> refreshes@[j].index < n,
            increasing(fetches@),
            increasing(refreshes@),
            forall|j: int, m: int|
                0 <= j < refreshes@.len() && k <= m < fetches@.len() ==> (#[trigger] refreshes@[j]).index
                    < (#[trigger] fetches@[m]).index,
            forall|m: int| k <= m < fetches@.len() ==> slots@[(#[trigger] fetches@[m]).index as int] is None,
            forall|j: int| 0 <= j < refreshes@.len() ==> slots@[(#[trigger] refreshes@[j]).index as int] is None,
            !options.dry_run ==> no_conflict_slots(slots@),
            !options.dry_run ==> dry_runs@.len() == 0,
            options.dry_run ==> routes_slots(slots@, dry_runs@, dry_runs@.len() as int),
            slot_names(slots@, repositories@),
            options.dry_run ==> untouched_slots(slots@),
            options.dry_run ==> fetches@.len() == 0 && refreshes@.len() == 0,
            reported_slots(git, slots@, repositories@, options.dry_run),
            forall|j: int|
                0 <= j < fetches@.len() ==> was_checked(
                    git,
                    repositories@[(#[trigger] fetches@[j]).index as int],
                    options.dry_run,
                    fetch_decision(fetches@[j]),
                ),
            forall|j: int|
                0 <= j < refreshes@.len() ==> was_checked(
                    git,
                    repositories@[(#[trigger] refreshes@[j]).index as int],
                    options.dry_run,
                    fetch_decision(refreshes@[j]),
                ),
        decreases fetches@.len() - k,
    {
        let ghost before = slots@;
        let ghost old_refreshes = refreshes@;
        assert(forall|m: int| k < m < fetches@.len() ==> fetches@[k as int].index < (#[trigger] fetches@[m]).index);
        let task = &fetches[k];
        let repository = &repositories[task.index];
        events.repository_started(repository.display_path(), Phase::Fetching)?;
        let fetched = git.fetch(repository.path());
        let ghost fetched_seen = fetched;
        let completion = fetch_completion(repository, fetched);
        let ghost completed = completion;
        match completion {
            Ok(None) => {
                refreshes.push(
                    Task::new(task.index, task.common_directory.clone(), task.default_branch.clone()),
                );
                fetched_count = fetched_count + 1;
            },
            Ok(Some(e)) => {
                assert(!conflict_blocked(e.outcome));
                assert(fetch_completed(*repository, fetched_seen, completed));
                assert(settled(git, *repository, fetch_decision(fetches@[k as int]), e));
                slots.set(task.index, Some(e));
                proof {
                    assert forall|j: int| 0 <= j < refreshes@.len() implies slots@[(#[trigger] refreshes@[j]).index as int] is None by {
                        assert(refreshes@[j].index < fetches@[k as int].index);
                        assert(slots@[refreshes@[j].index as int] == before[refreshes@[j].index as int]);
                    }
                    assert forall|m: int| k + 1 <= m < fetches@.len() implies slots@[(#[trigger] fetches@[m]).index as int] is None by {
                        assert(fetches@[k as int].index < fetches@[m].index);
                        assert(slots@[fetches@[m].index as int] == before[fetches@[m].index as int]);
                    }
                    assert forall|j: int|
                        #![trigger slots@[j]]
                        0 <= j < slots@.len() implies match slots@[j] {
                            Some(x) => !conflict_blocked(x.outcome),
                            None => true,
                        } by {
                        if j != fetches@[k as int].index as int {
                            assert(slots@[j] == before[j]);
                        }
                    }
                }
            },
            Err(e) => return Err(e),
        }
        proof {
            assert forall|j: int, m: int|
                0 <= j < refreshes@.len() && k + 1 <= m < fetches@.len() implies (#[trigger] refreshes@[j]).index
                    < (#[trigger] fetches@[m]).index by {
                if j < old_refreshes.len() {
                    assert(refreshes@[j] == old_refreshes[j]);
                    assert(old_refreshes[j].index < fetches@[m].index);
                } else {
                    assert(refreshes@[j].index == fetches@[k as int].index);
                }
            }
            assert forall|a: int, b: int| 0 <= a < b < refreshes@.len() implies (#[trigger] refreshes@[a]).index < (#[trigger] refreshes@[b]).index by {
                if b < old_refreshes.len() {
                    assert(refreshes@[a] == old_refreshes[a]);
                    assert(refreshes@[b] == old_refreshes[b]);
                } else {
                    assert(refreshes@[a] == old_refreshes[a]);
                    assert(old_refreshes[a].index < fetches@[k as int].index);
                }
            }
        }
        events.repository_finished(repository.display_path(), Phase::Fetching)?;
        k = k + 1;
    }
    let fetched = PhaseSummary::new(fetched_count, clock.elapsed_since(mark));
    events.phase_completed(Phase::Fetching, fetched)?;

    // Refresh, except worktrees that conflict.
    let mark = clock.mark();
    let mut routes = refreshable_tasks(repositories.as_slice(), &refreshes);
    let ghost all_routes = routes@;
    assert(!options.dry_run ==> routes_slots(slots@, refreshes@, 0));
    let mut refreshed_count: usize = 0;
    events.phase_started(Phase::Refreshing, refreshes.len())?;
    let mut k: usize = 0;
    while k < refreshes.len()
        invariant
            n == repositories@.len(),
            slots@.len() == n,
            k <= refreshes@.len(),
            routes@.len() == refreshes@.len() - k,
            all_routes.len() == refreshes@.len(),
            routes@ == all_routes.skip(k as int),
            refreshed_count <= k,
            forall|j: int| 0 <= j < refreshes@.len() ==> refreshes@[j].index < n,
            forall|j: int|
                0 <= j < refreshes@.len() ==> match #[trigger] all_routes[j] {
                    Some(e) => e.repository@ == repositories@[refreshes@[j].index as int].display_path_view(),
                    None => true,
                },
            forall|j: int|
                0 <= j < refreshes@.len() ==> ((#[trigger] all_routes[j]) is None <==> !in_conflict(refreshes@, j)),
            forall|j: int|
                0 <= j < refreshes@.len() ==> ((#[trigger] all_routes[j]) matches Some(e) ==> (e.outcome matches Outcome::Blocked {
                    reason: BlockedReason::LinkedWorktreeDefaultBranchConflict { branch },
                } && branch@ == refreshes@[j].default_branch@)),
            !options.dry_run ==> routes_slots(slots@, refreshes@, k as int),
            !options.dry_run ==> dry_runs@.len() == 0,
            options.dry_run ==> routes_slots(slots@, dry_runs@, dry_runs@.len() as int),
            slot_names(slots@, repositories@),
            options.dry_run ==> untouched_slots(slots@),
            options.dry_run ==> refreshes@.len() == 0,
            reported_slots(git, slots@, repositories@, options.dry_run),
            forall|j: int|
                0 <= j < refreshes@.len() ==> was_checked(
                    git,
                    repositories@[(#[trigger] refreshes@[j]).index as int],
                    options.dry_run,
                    fetch_decision(refreshes@[j]),
                ),
        decreases refreshes@.len() - k,
    {
        let ghost before = slots@;
        let task = &refreshes[k];
        events.repository_started(repositories[task.index].display_path(), Phase::Refreshing)?;
        assert(routes@[0] == all_routes[k as int]);
        let route = routes.remove(0);
        assert(routes@ == all_routes.skip(k as int + 1));
        match route {
            Some(e) => {
                assert(routed_entry(e, refreshes@, k as int));
                assert(settled(git, repositories@[task.index as int], fetch_decision(refreshes@[k as int]), e));
                slots.set(task.index, Some(e));
                proof {
                    lemma_route_step(before, slots@, refreshes@, k as int, e);
                }
            },
            None => {
                let entry = update::refresh_repository(
                    git,
                    &repositories[task.index],
                    task.default_branch.as_str(),
                );
                assert(!conflict_blocked(entry.outcome));
                assert(routed_entry(entry, refreshes@, k as int));
                proof {
                    assert(exists|r: Result<GitRefreshOutcome, AppError>| #[trigger] refresh_result(task.default_branch@, r, entry.outcome)
                        && git.refreshes(repositories@[task.index as int].path_view(), task.default_branch@, r));
                    let d = fetch_decision(refreshes@[k as int]);
                    assert(d->Fetch_default_branch@ == task.default_branch@);
                    assert(settled(git, repositories@[task.index as int], d, entry));
                }
                if outcome_in_tally(&entry.outcome, Tally::Changed) {
                    refreshed_count = refreshed_count + 1;
                }
                slots.set(task.index, Some(entry));
                proof {
                    lemma_route_step(before, slots@, refreshes@, k as int, entry);
                }
            },
        }
        events.repository_finished(repositories[task.index].display_path(), Phase::Refreshing)?;
        k = k + 1;
    }
    let refreshed = PhaseSummary::new(refreshed_count, clock.elapsed_since(mark));
    events.phase_completed(Phase::Refreshing, refreshed)?;

    let ghost filled = slots@;
    let entries = match complete_entries(slots) {
        Ok(e) => e,
        Err(e) => return Err(e),
    };
    assert forall|k: int| 0 <= k < entries@.len() implies (#[trigger] entries@[k]).repository@
        == repositories@[k].display_path_view() by {
        assert(filled[k] == Some(entries@[k]));
    }
    assert(options.dry_run ==> forall|k: int|
        0 <= k < entries@.len() ==> leaves_untouched((#[trigger] entries@[k]).outcome)) by {
        if options.dry_run {
            assert forall|k: int| 0 <= k < entries@.len() implies leaves_untouched(
                (#[trigger] entries@[k]).outcome,
            ) by {
                assert(filled[k] == Some(entries@[k]));
            }
        }
    }
    assert(one_entry_each(entries@, picked(configured, selected@)));
    assert forall|k: int| 0 <= k < entries@.len() implies reported(
        git,
        picked(configured, selected@)[k],
        options.dry_run,
        #[trigger] entries@[k],
    ) by {
        assert(filled[k] == Some(entries@[k]));
        assert(repositories@[k] == picked(configured, selected@)[k]);
    }
    let ghost tasks = if options.dry_run { dry_runs@ } else { refreshes@ };
    assert(routes_slots(filled, tasks, tasks.len() as int));
    proof {
        lemma_routes_entries(filled, entries@, tasks);
    }
    Ok(
        Report::new(
            entries,
            clock.elapsed_since(started),
            PhaseSummaries::new(checked, fetched, refreshed),
        ),
    )
}

} // verus!
