//! The update phase of sync: fast-forward the default branch of a fetched
//! repository and classify what Git reports.

use vstd::prelude::*;
use crate::app::entry::Entry;
use crate::app::inspection::surround;
use crate::error::AppError;
use crate::git::{GitClient, GitUpdateBlock, GitUpdateOutcome, Restoration};
use crate::repositories::RepositoryDefinition;
use crate::text::push_str;
use super::report::{BlockedReason, Outcome, SkippedReason};

verus! {

/// The outcome a refusal by Git maps to.
pub open spec fn block_outcome(block: GitUpdateBlock, branch: Seq<char>, outcome: Outcome) -> bool {
    match block {
        GitUpdateBlock::DetachedHead => outcome == (Outcome::Blocked {
            reason: BlockedReason::DetachedHead,
        }),
        GitUpdateBlock::DirtyWorkingTree => outcome == (Outcome::Skipped {
            reason: SkippedReason::DirtyWorkingTree,
        }),
        GitUpdateBlock::MissingLocalBranch => outcome matches Outcome::Blocked {
            reason: BlockedReason::MissingLocalBranch { branch: b },
        } && b@ == branch,
        GitUpdateBlock::MissingRemoteBranch => outcome matches Outcome::Blocked {
            reason: BlockedReason::MissingRemoteBranch { branch: b },
        } && b@ == branch,
        GitUpdateBlock::Diverged => outcome matches Outcome::Blocked {
            reason: BlockedReason::Diverged { branch: b },
        } && b@ == branch,
        GitUpdateBlock::AheadOfOrigin => outcome matches Outcome::Blocked {
            reason: BlockedReason::AheadOfOrigin { branch: b },
        } && b@ == branch,
    }
}

pub fn blocked_outcome(block: GitUpdateBlock, default_branch: &str) -> (o: Outcome)
    ensures
        block_outcome(block, default_branch@, o),
{
    let branch = String::from_str(default_branch);
    match block {
        GitUpdateBlock::DetachedHead => Outcome::Blocked { reason: BlockedReason::DetachedHead },
        GitUpdateBlock::DirtyWorkingTree => Outcome::Skipped {
            reason: SkippedReason::DirtyWorkingTree,
        },
        GitUpdateBlock::MissingLocalBranch => Outcome::Blocked {
            reason: BlockedReason::MissingLocalBranch { branch },
        },
        GitUpdateBlock::MissingRemoteBranch => Outcome::Blocked {
            reason: BlockedReason::MissingRemoteBranch { branch },
        },
        GitUpdateBlock::Diverged => Outcome::Blocked { reason: BlockedReason::Diverged { branch } },
        GitUpdateBlock::AheadOfOrigin => Outcome::Blocked {
            reason: BlockedReason::AheadOfOrigin { branch },
        },
    }
}

/// The failure message of an update, with what became of the original branch.
pub open spec fn restoration_text(primary: Seq<char>, restoration: Restoration) -> Seq<char> {
    match restoration {
        Restoration::NotNeeded => primary,
        Restoration::Restored => primary + "; restored the original branch"@,
        Restoration::Failed(m) => primary + "; restoring the original branch also failed: "@ + m@,
    }
}

pub fn restoration_message(primary: String, restoration: Restoration) -> (m: String)
    ensures
        m@ == restoration_text(primary@, restoration),
{
    match restoration {
        Restoration::NotNeeded => primary,
        Restoration::Restored => {
            let mut m = primary;
            push_str(&mut m, "; restored the original branch");
            m
        },
        Restoration::Failed(r) => surround(
            primary.as_str(),
            "; restoring the original branch also failed: ",
            r.as_str(),
        ),
    }
}

pub open spec fn current_but_unrestored_text(message: Seq<char>) -> Seq<char> {
    "default branch was current, but restoring the original branch failed: "@ + message
}

/// What an update of `branch` came to, given what Git reported. A moved
/// branch is updated (noting a failed restoration of the original branch); an
/// unmoved one is current, unless the original branch could not be restored.
pub open spec fn update_result(branch: Seq<char>, result: Result<GitUpdateOutcome, AppError>, outcome: Outcome) -> bool {
    match result {
        Err(e) => outcome matches Outcome::Blocked { reason: BlockedReason::UpdateFailed(m) }
            && m@ == e.text(),
        Ok(GitUpdateOutcome::Blocked(block)) => block_outcome(block, branch, outcome),
        Ok(GitUpdateOutcome::Failed { primary, restoration }) => outcome matches Outcome::Blocked {
            reason: BlockedReason::UpdateFailed(m),
        } && m@ == restoration_text(primary@, restoration),
        Ok(GitUpdateOutcome::Completed { update, restoration }) => if update.moved() {
            match restoration {
                Restoration::Failed(message) => outcome matches Outcome::UpdatedButRestorationFailed {
                    branch: b,
                    before,
                    after,
                    message: m,
                } && b@ == branch && before == update.before && after == update.after && m
                    == message,
                _ => outcome matches Outcome::Updated { branch: b, before, after } && b@ == branch
                    && before == update.before && after == update.after,
            }
        } else {
            match restoration {
                Restoration::Failed(message) => outcome matches Outcome::Blocked {
                    reason: BlockedReason::UpdateFailed(m),
                } && m@ == current_but_unrestored_text(message@),
                _ => outcome matches Outcome::Current { branch: b } && b@ == branch,
            }
        },
    }
}

pub fn update_outcome(default_branch: &str, result: Result<GitUpdateOutcome, AppError>) -> (o:
    Outcome)
    ensures
        update_result(default_branch@, result, o),
{
    match result {
        Err(e) => Outcome::Blocked { reason: BlockedReason::UpdateFailed(e.message()) },
        Ok(GitUpdateOutcome::Blocked(block)) => blocked_outcome(block, default_branch),
        Ok(GitUpdateOutcome::Failed { primary, restoration }) => Outcome::Blocked {
            reason: BlockedReason::UpdateFailed(restoration_message(primary, restoration)),
        },
        Ok(GitUpdateOutcome::Completed { update, restoration }) => {
            let branch = String::from_str(default_branch);
            if update.changed() {
                match restoration {
                    Restoration::Failed(message) => Outcome::UpdatedButRestorationFailed {
                        branch,
                        before: update.before,
                        after: update.after,
                        message,
                    },
                    _ => Outcome::Updated { branch, before: update.before, after: update.after },
                }
            } else {
                match restoration {
                    Restoration::Failed(message) => {
                        let mut m = String::from_str(
                            "default branch was current, but restoring the original branch failed: ",
                        );
                        push_str(&mut m, message.as_str());
                        Outcome::Blocked { reason: BlockedReason::UpdateFailed(m) }
                    },
                    _ => Outcome::Current { branch },
                }
            }
        },
    }
}

/// Updates one fetched repository and records the outcome.
pub fn update_repository<G: GitClient>(
    git: &G,
    repository: &RepositoryDefinition,
    common_directory: &str,
    default_branch: &str,
) -> (e: Entry<Outcome>)
    ensures
        e.repository@ == repository.display_path_view(),
        e.blocked_details is None,
        exists|result: Result<GitUpdateOutcome, AppError>|
            #[trigger] git.updates(repository.path_view(), common_directory@, default_branch@, result)
                && update_result(default_branch@, result, e.outcome),
{
    let result = git.update_default_branch(repository.path(), common_directory, default_branch);
    let ghost observed = result;
    let outcome = update_outcome(default_branch, result);
    assert(update_result(default_branch@, observed, outcome));
    assert(git.updates(repository.path_view(), common_directory@, default_branch@, observed));
    Entry::new(repository, outcome)
}

} // verus!
