use grove::app::refresh::tasks::{linked_worktree_conflicts, Task};
use grove::app::refresh::update::refresh_outcome;
use grove::app::refresh::{BlockedReason as RefreshBlocked, Outcome as RefreshOutcome};
use grove::app::status::{
    tracking_status, worktree_condition, BranchTrackingStatus, DefaultBranchStatus, StatusCondition,
};
use grove::app::sync::update::{blocked_outcome, restoration_message, update_outcome};
use grove::app::sync::{BlockedReason, Outcome, SkippedReason};
use grove::cli::status::{collapse_whitespace, format_default_branch, format_tracking_status};
use grove::error::AppError;
use grove::git::{
    BranchReadiness, GitRefreshOutcome, GitUpdate, GitUpdateBlock, GitUpdateOutcome, Restoration,
};

fn update(before: &str, after: &str) -> GitUpdate {
    GitUpdate { before: before.to_string(), after: after.to_string() }
}

#[test]
fn a_moved_branch_is_updated_and_an_unmoved_one_current() {
    assert_eq!(
        update_outcome("main", Ok(GitUpdateOutcome::Completed { update: update("a1", "b2"), restoration: Restoration::NotNeeded })),
        Outcome::Updated { branch: "main".to_string(), before: "a1".to_string(), after: "b2".to_string() }
    );
    assert_eq!(
        update_outcome("main", Ok(GitUpdateOutcome::Completed { update: update("a1", "a1"), restoration: Restoration::Restored })),
        Outcome::Current { branch: "main".to_string() }
    );
}

#[test]
fn a_failed_restoration_is_reported_with_the_update() {
    assert_eq!(
        update_outcome(
            "main",
            Ok(GitUpdateOutcome::Completed { update: update("a1", "b2"), restoration: Restoration::Failed("locked".to_string()) })
        ),
        Outcome::UpdatedButRestorationFailed {
            branch: "main".to_string(),
            before: "a1".to_string(),
            after: "b2".to_string(),
            message: "locked".to_string(),
        }
    );
    assert_eq!(
        update_outcome(
            "main",
            Ok(GitUpdateOutcome::Completed { update: update("a1", "a1"), restoration: Restoration::Failed("locked".to_string()) })
        ),
        Outcome::Blocked {
            reason: BlockedReason::UpdateFailed(
                "default branch was current, but restoring the original branch failed: locked".to_string()
            )
        }
    );
}

#[test]
fn update_failures_carry_the_restoration() {
    assert_eq!(
        restoration_message("merge failed".to_string(), Restoration::Restored),
        "merge failed; restored the original branch"
    );
    assert_eq!(
        restoration_message("merge failed".to_string(), Restoration::Failed("busy".to_string())),
        "merge failed; restoring the original branch also failed: busy"
    );
    assert_eq!(
        update_outcome("main", Err(AppError::Io("git crashed".to_string()))),
        Outcome::Blocked { reason: BlockedReason::UpdateFailed("git crashed".to_string()) }
    );
}

#[test]
fn blocks_become_skips_or_blocked_reasons() {
    assert_eq!(
        blocked_outcome(GitUpdateBlock::DirtyWorkingTree, "main"),
        Outcome::Skipped { reason: SkippedReason::DirtyWorkingTree }
    );
    assert_eq!(
        blocked_outcome(GitUpdateBlock::Diverged, "main"),
        Outcome::Blocked { reason: BlockedReason::Diverged { branch: "main".to_string() } }
    );
    assert_eq!(
        BlockedReason::Diverged { branch: "main".to_string() }.message(),
        "main has diverged from origin/main"
    );
    assert_eq!(
        BlockedReason::MissingRemoteBranch { branch: "main".to_string() }.message(),
        "remote default branch 'origin/main' is missing"
    );
}

#[test]
fn refresh_reports_the_branch_it_left() {
    assert_eq!(
        refresh_outcome(
            "main",
            Ok(GitRefreshOutcome::Completed { update: update("a", "b"), previous_branch: Some("dev".to_string()) })
        ),
        RefreshOutcome::Refreshed {
            branch: "main".to_string(),
            before: "a".to_string(),
            after: "b".to_string(),
            previous_branch: Some("dev".to_string()),
        }
    );
    assert_eq!(
        refresh_outcome(
            "main",
            Ok(GitRefreshOutcome::Completed { update: update("a", "a"), previous_branch: Some("dev".to_string()) })
        ),
        RefreshOutcome::Switched { branch: "main".to_string(), previous_branch: "dev".to_string() }
    );
    assert_eq!(
        refresh_outcome(
            "main",
            Ok(GitRefreshOutcome::Failed { message: "conflict".to_string(), previous_branch: Some("dev".to_string()) })
        ),
        RefreshOutcome::SwitchedAndBlocked {
            branch: "main".to_string(),
            previous_branch: "dev".to_string(),
            reason: RefreshBlocked::UpdateFailed("conflict".to_string()),
        }
    );
    assert_eq!(
        refresh_outcome("main", Ok(GitRefreshOutcome::Completed { update: update("a", "a"), previous_branch: None })),
        RefreshOutcome::Current { branch: "main".to_string() }
    );
}

#[test]
fn worktrees_sharing_a_repository_and_branch_conflict() {
    let task = |index, common: &str, branch: &str| Task {
        index,
        common_directory: common.to_string(),
        default_branch: branch.to_string(),
    };
    let tasks = vec![
        task(0, "/r/.git", "main"),
        task(1, "/r/.git", "main"),
        task(2, "/r/.git", "dev"),
        task(3, "/s/.git", "main"),
    ];
    assert_eq!(linked_worktree_conflicts(&tasks), vec![true, true, false, false]);
    assert_eq!(linked_worktree_conflicts(&Vec::new()), Vec::<bool>::new());
}

#[test]
fn status_condition_of_an_existing_worktree() {
    assert_eq!(worktree_condition(false, true, true), StatusCondition::Invalid("remote origin is missing".to_string()));
    assert_eq!(worktree_condition(true, true, true), StatusCondition::RemoteMismatch);
    assert_eq!(worktree_condition(true, false, true), StatusCondition::Clean);
    assert_eq!(worktree_condition(true, false, false), StatusCondition::Dirty);
    assert_eq!(StatusCondition::RemoteMismatch.as_str(), "remote-mismatch");
}

#[test]
fn default_branch_and_tracking_are_shown_in_words() {
    let diverged = tracking_status(BranchReadiness::Divergence { ahead: 2, behind: 3 });
    assert_eq!(diverged, BranchTrackingStatus::Divergence { ahead: 2, behind: 3 });
    assert_eq!(format_tracking_status(&diverged), "ahead 2, behind 3");
    assert_eq!(
        format_tracking_status(&BranchTrackingStatus::Divergence { ahead: 0, behind: 0 }),
        "up to date"
    );
    assert_eq!(format_tracking_status(&BranchTrackingStatus::MissingLocalBranch), "local branch missing");
    assert_eq!(format_default_branch(&DefaultBranchStatus::new("main".to_string(), diverged)), "main ahead 2 behind 3");
    assert_eq!(
        format_default_branch(&DefaultBranchStatus::new(
            "main".to_string(),
            BranchTrackingStatus::MissingRemoteBranch
        )),
        "main remote missing"
    );
}

#[test]
fn whitespace_runs_collapse_to_one_space() {
    assert_eq!(collapse_whitespace("  fatal:\n  could not\tread  "), "fatal: could not read");
    assert_eq!(collapse_whitespace(""), "");
}
