//! Repositories that passed the check phase, and the worktree conflicts among
//! them. Git checks a branch out in at most one worktree of a repository, so
//! two selected worktrees that share a common directory and a default branch
//! cannot both be put on it: both are blocked.

use vstd::prelude::*;
use crate::app::entry::Entry;
use crate::error::AppError;
use crate::repositories::RepositoryDefinition;
use super::report::{BlockedReason, Outcome, Plan};

verus! {

/// A ready repository, by its position among the selected repositories.
#[derive(Debug, Clone, PartialEq, Eq)]
pub struct Task {
    pub index: usize,
    pub common_directory: String,
    pub default_branch: String,
}

impl Task {
    pub fn new(index: usize, common_directory: String, default_branch: String) -> (t: Task)
        ensures
            t.index == index,
            t.common_directory == common_directory,
            t.default_branch == default_branch,
    {
        Task { index, common_directory, default_branch }
    }
}

/// Two tasks claim the same branch of the same repository.
pub open spec fn same_key(a: Task, b: Task) -> bool {
    a.common_directory@ == b.common_directory@ && a.default_branch@ == b.default_branch@
}

/// Task `i` shares its key with another task.
pub open spec fn in_conflict(tasks: Seq<Task>, i: int) -> bool {
    exists|j: int| 0 <= j < tasks.len() && j != i && same_key(tasks[i], #[trigger] tasks[j])
}

/// An outcome blocked by a worktree conflict.
pub open spec fn conflict_blocked(outcome: Outcome) -> bool {
    outcome matches Outcome::Blocked { reason: BlockedReason::LinkedWorktreeDefaultBranchConflict { .. } }
}

/// The entries follow the conflict rule over the ready repositories
/// `tasks` (in selection order): a task's entry is blocked by a worktree
/// conflict, for its default branch, exactly when another task shares its
/// key, and no other entry is blocked so.
pub open spec fn routes_conflicts(entries: Seq<Entry<Outcome>>, tasks: Seq<Task>) -> bool {
    &&& forall|i: int| 0 <= i < tasks.len() ==> (#[trigger] tasks[i]).index < entries.len()
    &&& forall|i: int, j: int| 0 <= i < j < tasks.len() ==> (#[trigger] tasks[i]).index < (#[trigger] tasks[j]).index
    &&& forall|i: int|
        0 <= i < tasks.len() ==> (in_conflict(tasks, i) ==> (entries[(#[trigger] tasks[i]).index as int].outcome matches Outcome::Blocked {
            reason: BlockedReason::LinkedWorktreeDefaultBranchConflict { branch },
        } && branch@ == tasks[i].default_branch@))
    &&& forall|i: int|
        0 <= i < tasks.len() ==> (!in_conflict(tasks, i) ==> !conflict_blocked(
            entries[(#[trigger] tasks[i]).index as int].outcome,
        ))
    &&& forall|k: int|
        0 <= k < entries.len() ==> (conflict_blocked((#[trigger] entries[k]).outcome) ==> exists|i: int|
            0 <= i < tasks.len() && (#[trigger] tasks[i]).index == k)
}

/// The branch an outcome blocked by a worktree conflict names.
pub open spec fn conflict_branch(outcome: Outcome) -> Seq<char> {
    match outcome {
        Outcome::Blocked { reason: BlockedReason::LinkedWorktreeDefaultBranchConflict { branch } } => branch@,
        _ => Seq::empty(),
    }
}

/// Worktree conflicts come in pairs: an entry blocked by one has another
/// entry blocked by one for the same branch.
pub proof fn law_conflicts_come_in_pairs(entries: Seq<Entry<Outcome>>, tasks: Seq<Task>, k: int)
    requires
        routes_conflicts(entries, tasks),
        0 <= k < entries.len(),
        conflict_blocked(entries[k].outcome),
    ensures
        exists|j: int|
            0 <= j < entries.len() && j != k && conflict_blocked(#[trigger] entries[j].outcome)
                && conflict_branch(entries[j].outcome) == conflict_branch(entries[k].outcome),
{
    assert(exists|i: int| 0 <= i < tasks.len() && (#[trigger] tasks[i]).index == k);
    let i = choose|i: int| 0 <= i < tasks.len() && (#[trigger] tasks[i]).index == k;
    let ti = tasks[i];
    if !in_conflict(tasks, i) {
        assert(!conflict_blocked(entries[ti.index as int].outcome));
        assert(false);
    }
    let j = choose|j: int| 0 <= j < tasks.len() && j != i && same_key(tasks[i], #[trigger] tasks[j]);
    let tj = tasks[j];
    assert(same_key(tj, ti));
    assert(in_conflict(tasks, j));
    let other = tj.index as int;
    if i < j {
        assert(ti.index < tj.index);
    } else {
        assert(tj.index < ti.index);
    }
    assert(other < entries.len());
    assert(entries[other].outcome matches Outcome::Blocked {
        reason: BlockedReason::LinkedWorktreeDefaultBranchConflict { branch },
    } && branch@ == tj.default_branch@);
    assert(conflict_blocked(entries[other].outcome));
}

fn same_task_key(a: &Task, b: &Task) -> (res: bool)
    ensures
        res == same_key(*a, *b),
{
    a.common_directory == b.common_directory && a.default_branch == b.default_branch
}

/// For each task, whether another task claims the same key.
pub fn linked_worktree_conflicts(tasks: &Vec<Task>) -> (flags: Vec<bool>)
    ensures
        flags@.len() == tasks@.len(),
        forall|i: int| 0 <= i < tasks@.len() ==> flags@[i] == in_conflict(tasks@, i),
{
    let mut flags: Vec<bool> = Vec::new();
    let mut i: usize = 0;
    while i < tasks.len()
        invariant
            i <= tasks@.len(),
            flags@.len() == i,
            forall|k: int| 0 <= k < i ==> flags@[k] == in_conflict(tasks@, k),
        decreases tasks@.len() - i,
    {
        let mut found = false;
        let mut j: usize = 0;
        while j < tasks.len()
            invariant
                i < tasks@.len(),
                j <= tasks@.len(),
                found == exists|k: int|
                    0 <= k < j && k != i && same_key(tasks@[i as int], #[trigger] tasks@[k]),
            decreases tasks@.len() - j,
        {
            if j != i && same_task_key(&tasks[i], &tasks[j]) {
                found = true;
            }
            j = j + 1;
        }
        flags.push(found);
        i = i + 1;
    }
    flags
}

/// The outcome of a task that conflicts with another.
pub fn linked_worktree_conflict_outcome(task: &Task) -> (o: Outcome)
    ensures
        o matches Outcome::Blocked {
            reason: BlockedReason::LinkedWorktreeDefaultBranchConflict { branch },
        } && branch@ == task.default_branch@,
{
    Outcome::Blocked {
        reason: BlockedReason::LinkedWorktreeDefaultBranchConflict {
            branch: task.default_branch.clone(),
        },
    }
}

/// The entries of a dry run: a conflicting task is blocked, any other is
/// planned onto its default branch. One entry per task, in order.
pub fn plan_dry_runs(repositories: &[RepositoryDefinition], tasks: &Vec<Task>) -> (entries: Vec<
    Entry<Outcome>,
>)
    requires
        forall|i: int| 0 <= i < tasks@.len() ==> tasks@[i].index < repositories@.len(),
    ensures
        entries@.len() == tasks@.len(),
        forall|i: int|
            0 <= i < tasks@.len() ==> (#[trigger] entries@[i]).repository@
                == repositories@[tasks@[i].index as int].display_path_view(),
        forall|i: int|
            0 <= i < tasks@.len() ==> in_conflict(tasks@, i) ==> ((#[trigger] entries@[i]).outcome matches Outcome::Blocked {
                reason: BlockedReason::LinkedWorktreeDefaultBranchConflict { branch },
            } && branch@ == tasks@[i].default_branch@),
        forall|i: int|
            0 <= i < tasks@.len() ==> !in_conflict(tasks@, i) ==> (#[trigger] entries@[i]).outcome
                == Outcome::Planned(Plan { branch: tasks@[i].default_branch }),
{
    let conflicts = linked_worktree_conflicts(tasks);
    let mut entries: Vec<Entry<Outcome>> = Vec::new();
    let mut i: usize = 0;
    while i < tasks.len()
        invariant
            i <= tasks@.len(),
            conflicts@.len() == tasks@.len(),
            forall|k: int| 0 <= k < tasks@.len() ==> conflicts@[k] == in_conflict(tasks@, k),
            forall|k: int| 0 <= k < tasks@.len() ==> tasks@[k].index < repositories@.len(),
            entries@.len() == i,
            forall|k: int|
                0 <= k < i ==> (#[trigger] entries@[k]).repository@
                    == repositories@[tasks@[k].index as int].display_path_view(),
            forall|k: int|
                0 <= k < i ==> in_conflict(tasks@, k) ==> ((#[trigger] entries@[k]).outcome matches Outcome::Blocked {
                    reason: BlockedReason::LinkedWorktreeDefaultBranchConflict { branch },
                } && branch@ == tasks@[k].default_branch@),
            forall|k: int|
                0 <= k < i ==> !in_conflict(tasks@, k) ==> (#[trigger] entries@[k]).outcome
                    == Outcome::Planned(Plan { branch: tasks@[k].default_branch }),
        decreases tasks@.len() - i,
    {
        let task = &tasks[i];
        let outcome = if conflicts[i] {
            linked_worktree_conflict_outcome(task)
        } else {
            Outcome::Planned(Plan::new(task.default_branch.clone()))
        };
        entries.push(Entry::new(&repositories[task.index], outcome));
        i = i + 1;
    }
    entries
}

/// Splits the fetched tasks: a conflicting task gets its blocked entry at
/// once (`Some`), any other is refreshed (`None`). One slot per task, in
/// order.
pub fn refreshable_tasks(repositories: &[RepositoryDefinition], tasks: &Vec<Task>) -> (routes: Vec<
    Option<Entry<Outcome>>,
>)
    requires
        forall|i: int| 0 <= i < tasks@.len() ==> tasks@[i].index < repositories@.len(),
    ensures
        routes@.len() == tasks@.len(),
        forall|i: int|
            0 <= i < tasks@.len() ==> ((#[trigger] routes@[i]) is None <==> !in_conflict(tasks@, i)),
        forall|i: int|
            0 <= i < tasks@.len() ==> ((#[trigger] routes@[i]) matches Some(e) ==> e.repository@
                == repositories@[tasks@[i].index as int].display_path_view() && (e.outcome matches Outcome::Blocked {
                reason: BlockedReason::LinkedWorktreeDefaultBranchConflict { branch },
            } && branch@ == tasks@[i].default_branch@)),
{
    let conflicts = linked_worktree_conflicts(tasks);
    let mut routes: Vec<Option<Entry<Outcome>>> = Vec::new();
    let mut i: usize = 0;
    while i < tasks.len()
        invariant
            i <= tasks@.len(),
            conflicts@.len() == tasks@.len(),
            forall|k: int| 0 <= k < tasks@.len() ==> conflicts@[k] == in_conflict(tasks@, k),
            forall|k: int| 0 <= k < tasks@.len() ==> tasks@[k].index < repositories@.len(),
            routes@.len() == i,
            forall|k: int|
                0 <= k < i ==> ((#[trigger] routes@[k]) is None <==> !in_conflict(tasks@, k)),
            forall|k: int|
                0 <= k < i ==> ((#[trigger] routes@[k]) matches Some(e) ==> e.repository@
                    == repositories@[tasks@[k].index as int].display_path_view() && (e.outcome matches Outcome::Blocked {
                    reason: BlockedReason::LinkedWorktreeDefaultBranchConflict { branch },
                } && branch@ == tasks@[k].default_branch@)),
        decreases tasks@.len() - i,
    {
        let task = &tasks[i];
        if conflicts[i] {
            let outcome = linked_worktree_conflict_outcome(task);
            routes.push(Some(Entry::new(&repositories[task.index], outcome)));
        } else {
            routes.push(None);
        }
        i = i + 1;
    }
    routes
}

/// What a fetch came to: the task goes on to be refreshed on success
/// (`None`), is blocked on a failure that concerns it alone; an internal
/// error aborts the run.
/// What a fetch came to, from Git's result.
pub open spec fn fetch_completed(repository: RepositoryDefinition, result: Result<(), AppError>, res: Result<Option<Entry<Outcome>>, AppError>) -> bool {
    match result {
        Ok(()) => res == Ok::<Option<Entry<Outcome>>, AppError>(None),
        Err(err) => if err is Internal {
            res == Err::<Option<Entry<Outcome>>, AppError>(err)
        } else {
            res matches Ok(Some(e)) && e.repository@ == repository.display_path_view()
                && (e.outcome matches Outcome::Blocked { reason: BlockedReason::FetchFailed(m) }
                && m@ == err.text())
        },
    }
}

pub fn fetch_completion(repository: &RepositoryDefinition, result: Result<(), AppError>) -> (res:
    Result<Option<Entry<Outcome>>, AppError>)
    ensures
        fetch_completed(*repository, result, res),
{
    match result {
        Ok(()) => Ok(None),
        Err(err) => match err.demote() {
            Err(internal) => Err(internal),
            Ok(message) => Ok(
                Some(
                    Entry::new(
                        repository,
                        Outcome::Blocked { reason: BlockedReason::FetchFailed(message) },
                    ),
                ),
            ),
        },
    }
}

} // verus!
