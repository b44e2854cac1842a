//! The refresh phase: put a fetched repository on its default branch,
//! fast-forward it, and classify what Git reports.

use vstd::prelude::*;
use crate::app::entry::Entry;
use crate::error::AppError;
use crate::git::{GitClient, GitRefreshOutcome, GitUpdateBlock};
use crate::repositories::RepositoryDefinition;
use super::report::{BlockedReason, Outcome, SkippedReason};

verus! {

/// The outcome a refusal by Git maps to.
pub open spec fn block_outcome(block: GitUpdateBlock, branch: Seq<char>, outcome: Outcome) -> bool {
    match block {
        GitUpdateBlock::DetachedHead => outcome == (Outcome::Blocked {
            reason: BlockedReason::DetachedHead,
        }),
        GitUpdateBlock::DirtyWorkingTree => outcome == (Outcome::Skipped {
            reason: SkippedReason::DirtyWorkingTree,
        }),
        GitUpdateBlock::MissingLocalBranch => outcome matches Outcome::Blocked {
            reason: BlockedReason::MissingLocalBranch { branch: b },
        } && b@ == branch,
        GitUpdateBlock::MissingRemoteBranch => outcome matches Outcome::Blocked {
            reason: BlockedReason::MissingRemoteBranch { branch: b },
        } && b@ == branch,
        GitUpdateBlock::Diverged => outcome matches Outcome::Blocked {
            reason: BlockedReason::Diverged { branch: b },
        } && b@ == branch,
        GitUpdateBlock::AheadOfOrigin => outcome matches Outcome::Blocked {
            reason: BlockedReason::AheadOfOrigin { branch: b },
        } && b@ == branch,
    }
}

pub fn blocked_outcome(block: GitUpdateBlock, default_branch: &str) -> (o: Outcome)
    ensures
        block_outcome(block, default_branch@, o),
{
    let branch = String::from_str(default_branch);
    match block {
        GitUpdateBlock::DetachedHead => Outcome::Blocked { reason: BlockedReason::DetachedHead },
        GitUpdateBlock::DirtyWorkingTree => Outcome::Skipped {
            reason: SkippedReason::DirtyWorkingTree,
        },
        GitUpdateBlock::MissingLocalBranch => Outcome::Blocked {
            reason: BlockedReason::MissingLocalBranch { branch },
        },
        GitUpdateBlock::MissingRemoteBranch => Outcome::Blocked {
            reason: BlockedReason::MissingRemoteBranch { branch },
        },
        GitUpdateBlock::Diverged => Outcome::Blocked { reason: BlockedReason::Diverged { branch } },
        GitUpdateBlock::AheadOfOrigin => Outcome::Blocked {
            reason: BlockedReason::AheadOfOrigin { branch },
        },
    }
}

/// What a refresh of `branch` came to, given what Git reported. A moved
/// branch is refreshed; an unmoved one is switched when the repository was on
/// another branch and current otherwise; a failure after the switch keeps
/// the branch that was left.
pub open spec fn refresh_result(branch: Seq<char>, result: Result<GitRefreshOutcome, AppError>, outcome: Outcome) -> bool {
    match result {
        Err(e) => outcome matches Outcome::Blocked { reason: BlockedReason::UpdateFailed(m) }
            && m@ == e.text(),
        Ok(GitRefreshOutcome::Blocked(block)) => block_outcome(block, branch, outcome),
        Ok(GitRefreshOutcome::Failed { message, previous_branch }) => match previous_branch {
            Some(previous) => outcome matches Outcome::SwitchedAndBlocked {
                branch: b,
                previous_branch: p,
                reason: BlockedReason::UpdateFailed(m),
            } && b@ == branch && p == previous && m == message,
            None => outcome == (Outcome::Blocked { reason: BlockedReason::UpdateFailed(message) }),
        },
        Ok(GitRefreshOutcome::Completed { update, previous_branch }) => if update.moved() {
            outcome matches Outcome::Refreshed { branch: b, before, after, previous_branch: p }
                && b@ == branch && before == update.before && after == update.after && p
                == previous_branch
        } else {
            match previous_branch {
                Some(previous) => outcome matches Outcome::Switched {
                    branch: b,
                    previous_branch: p,
                } && b@ == branch && p == previous,
                None => outcome matches Outcome::Current { branch: b } && b@ == branch,
            }
        },
    }
}

pub fn refresh_outcome(default_branch: &str, result: Result<GitRefreshOutcome, AppError>) -> (o:
    Outcome)
    ensures
        refresh_result(default_branch@, result, o),
{
    let branch = String::from_str(default_branch);
    match result {
        Err(e) => Outcome::Blocked { reason: BlockedReason::UpdateFailed(e.message()) },
        Ok(GitRefreshOutcome::Blocked(block)) => blocked_outcome(block, default_branch),
        Ok(GitRefreshOutcome::Failed { message, previous_branch }) => match previous_branch {
            Some(previous_branch) => Outcome::SwitchedAndBlocked {
                branch,
                previous_branch,
                reason: BlockedReason::UpdateFailed(message),
            },
            None => Outcome::Blocked { reason: BlockedReason::UpdateFailed(message) },
        },
        Ok(GitRefreshOutcome::Completed { update, previous_branch }) => if update.changed() {
            Outcome::Refreshed { branch, before: update.before, after: update.after, previous_branch }
        } else {
            match previous_branch {
                Some(previous_branch) => Outcome::Switched { branch, previous_branch },
                None => Outcome::Current { branch },
            }
        },
    }
}

/// Refreshes one fetched repository and records the outcome.
pub fn refresh_repository<G: GitClient>(
    git: &G,
    repository: &RepositoryDefinition,
    default_branch: &str,
) -> (e: Entry<Outcome>)
    ensures
        e.repository@ == repository.display_path_view(),
        e.blocked_details is None,
        exists|result: Result<GitRefreshOutcome, AppError>|
            #[trigger] git.refreshes(repository.path_view(), default_branch@, result)
                && refresh_result(default_branch@, result, e.outcome),
{
    let result = git.refresh_default_branch(repository.path(), default_branch);
    let ghost observed = result;
    let outcome = refresh_outcome(default_branch, result);
    assert(refresh_result(default_branch@, observed, outcome));
    assert(git.refreshes(repository.path_view(), default_branch@, observed));
    Entry::new(repository, outcome)
}

} // verus!
