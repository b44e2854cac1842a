//! The check phase of sync: what to do with each selected repository before
//! any network work.

use vstd::prelude::*;
use crate::app::entry::{BlockedReasonDetails, Entry};
use crate::error::AppError;
use crate::git::{BranchReadiness, GitClient, Readiness};
use crate::repositories::RepositoryDefinition;
use super::report::{leaves_untouched, BlockedReason, Outcome, Plan, SkippedReason};

verus! {

/// The check phase's verdict on one repository.
#[derive(Debug, PartialEq, Eq)]
pub enum Decision {
    /// The outcome is already final.
    Entry(Entry<Outcome>),
    /// The destination is missing and must be cloned.
    Clone,
    /// The repository is ready; fetch it, then update this branch.
    Fetch { common_directory: String, default_branch: String },
    /// The outcome is final, but the repository can still seed the cache.
    SeedOnly { entry: Entry<Outcome> },
}

/// The decision settles on an entry planned for a clone or a fetch.
pub open spec fn decides_planned(d: Decision) -> bool {
    ||| d matches Decision::Entry(e) && e.outcome is Planned
    ||| d matches Decision::SeedOnly { entry: e } && e.outcome is Planned
}

/// The decision settles on an entry that reports an update.
pub open spec fn decides_updated(d: Decision) -> bool {
    ||| d matches Decision::Entry(e) && (e.outcome is Updated || e.outcome is UpdatedButRestorationFailed)
    ||| d matches Decision::SeedOnly { entry: e } && (e.outcome is Updated
        || e.outcome is UpdatedButRestorationFailed)
}

/// A missing destination: planned for a clone in a dry run, cloned otherwise.
pub open spec fn missing_decided(repository: RepositoryDefinition, dry_run: bool, d: Decision) -> bool {
    &&& dry_run ==> (d matches Decision::Entry(e) && e.repository@ == repository.display_path_view()
        && e.blocked_details is None && e.warning is None && (e.outcome matches Outcome::Planned(
        Plan::Clone { url },
    ) && url@ == repository.url_view()))
    &&& !dry_run ==> d == Decision::Clone
}

pub fn missing_decision(repository: &RepositoryDefinition, dry_run: bool) -> (d: Decision)
    ensures
        missing_decided(*repository, dry_run, d),
{
    if dry_run {
        let url = String::from_str(repository.url().as_str());
        Decision::Entry(Entry::new(repository, Outcome::Planned(Plan::Clone { url })))
    } else {
        Decision::Clone
    }
}

/// The decision an inspection settles, or the default branch of a repository
/// that is ready.
#[derive(Debug, PartialEq, Eq)]
pub enum ReadinessStep {
    Settled(Decision),
    Ready(String),
}

/// The outcome an inspection settles a repository with; a ready repository
/// is settled by none.
pub open spec fn settles(readiness: Readiness, outcome: Outcome) -> bool {
    match readiness {
        Readiness::NotAWorkTree => outcome == (Outcome::Blocked {
            reason: BlockedReason::DestinationNotGitRepository,
        }),
        Readiness::MissingOrigin => outcome == (Outcome::Blocked {
            reason: BlockedReason::MissingOrigin,
        }),
        Readiness::UrlMismatch { .. } => outcome == (Outcome::Blocked {
            reason: BlockedReason::RemoteUrlMismatch,
        }),
        Readiness::DetachedHead => outcome == (Outcome::Blocked {
            reason: BlockedReason::DetachedHead,
        }),
        Readiness::DirtyTree => outcome == (Outcome::Skipped {
            reason: SkippedReason::DirtyWorkingTree,
        }),
        Readiness::NoDefaultBranch => outcome == (Outcome::Blocked {
            reason: BlockedReason::MissingRemoteDefaultBranch,
        }),
        Readiness::Ready { .. } => false,
    }
}

/// Turns an inspection into a decision. A detached HEAD or a dirty working
/// tree is left untouched but may still seed the cache in a real run; a URL
/// mismatch keeps both URLs beside the outcome.
/// The step an inspection settles on.
pub open spec fn readiness_step(repository: RepositoryDefinition, readiness: Readiness, dry_run: bool, step: ReadinessStep) -> bool {
        match readiness {
            Readiness::Ready { default_branch } => step == ReadinessStep::Ready(default_branch),
            Readiness::UrlMismatch { actual, expected } => step matches ReadinessStep::Settled(
                Decision::Entry(e),
            ) && e.repository@ == repository.display_path_view() && settles(readiness, e.outcome) && e.blocked_details == Some(
                BlockedReasonDetails::RemoteUrlMismatch { actual, expected },
            ),
            Readiness::DetachedHead | Readiness::DirtyTree => if dry_run {
                step matches ReadinessStep::Settled(Decision::Entry(e)) && e.repository@
                    == repository.display_path_view() && settles(readiness, e.outcome)
                    && e.blocked_details is None
            } else {
                step matches ReadinessStep::Settled(Decision::SeedOnly { entry: e })
                    && e.repository@ == repository.display_path_view() && settles(readiness, e.outcome) && e.blocked_details is None
            },
            _ => step matches ReadinessStep::Settled(Decision::Entry(e)) && e.repository@
                == repository.display_path_view() && settles(readiness, e.outcome)
                && e.blocked_details is None,
        }
}

pub fn readiness_decision(repository: &RepositoryDefinition, readiness: Readiness, dry_run: bool) -> (step:
    ReadinessStep)
    ensures
        readiness_step(*repository, readiness, dry_run, step),
{
    match readiness {
        Readiness::NotAWorkTree => ReadinessStep::Settled(
            Decision::Entry(
                Entry::new(
                    repository,
                    Outcome::Blocked { reason: BlockedReason::DestinationNotGitRepository },
                ),
            ),
        ),
        Readiness::MissingOrigin => ReadinessStep::Settled(
            Decision::Entry(
                Entry::new(repository, Outcome::Blocked { reason: BlockedReason::MissingOrigin }),
            ),
        ),
        Readiness::UrlMismatch { actual, expected } => ReadinessStep::Settled(
            Decision::Entry(
                Entry::blocked_with_details(
                    repository,
                    Outcome::Blocked { reason: BlockedReason::RemoteUrlMismatch },
                    BlockedReasonDetails::RemoteUrlMismatch { actual, expected },
                ),
            ),
        ),
        Readiness::DetachedHead => ReadinessStep::Settled(
            seed_only_or_terminal(
                Entry::new(repository, Outcome::Blocked { reason: BlockedReason::DetachedHead }),
                dry_run,
            ),
        ),
        Readiness::DirtyTree => ReadinessStep::Settled(
            seed_only_or_terminal(
                Entry::new(
                    repository,
                    Outcome::Skipped { reason: SkippedReason::DirtyWorkingTree },
                ),
                dry_run,
            ),
        ),
        Readiness::NoDefaultBranch => ReadinessStep::Settled(
            Decision::Entry(
                Entry::new(
                    repository,
                    Outcome::Blocked { reason: BlockedReason::MissingRemoteDefaultBranch },
                ),
            ),
        ),
        Readiness::Ready { default_branch } => ReadinessStep::Ready(default_branch),
    }
}

/// A repository sync leaves untouched still seeds the cache in a real run;
/// in a dry run it stays a plain final entry.
pub fn seed_only_or_terminal(entry: Entry<Outcome>, dry_run: bool) -> (d: Decision)
    ensures
        dry_run ==> d == Decision::Entry(entry),
        !dry_run ==> d == (Decision::SeedOnly { entry }),
{
    if dry_run {
        Decision::Entry(entry)
    } else {
        Decision::SeedOnly { entry }
    }
}

/// Why a default branch cannot be fast-forwarded, if it cannot: it is
/// missing on either side, it has diverged, or it is ahead of `origin`.
pub open spec fn branch_block(branch: Seq<char>, readiness: BranchReadiness, reason: Option<
    BlockedReason,
>) -> bool {
    match readiness {
        BranchReadiness::MissingLocal => reason matches Some(
            BlockedReason::MissingLocalBranch { branch: b },
        ) && b@ == branch,
        BranchReadiness::MissingRemote => reason matches Some(
            BlockedReason::MissingRemoteBranch { branch: b },
        ) && b@ == branch,
        BranchReadiness::Divergence { ahead, behind } => if ahead > 0 && behind > 0 {
            reason matches Some(BlockedReason::Diverged { branch: b }) && b@ == branch
        } else if ahead > 0 {
            reason matches Some(BlockedReason::AheadOfOrigin { branch: b }) && b@ == branch
        } else {
            reason is None
        },
    }
}

pub fn default_branch_block_reason(branch: &str, readiness: BranchReadiness) -> (reason: Option<
    BlockedReason,
>)
    ensures
        branch_block(branch@, readiness, reason),
{
    let name = String::from_str(branch);
    match readiness {
        BranchReadiness::MissingLocal => Some(BlockedReason::MissingLocalBranch { branch: name }),
        BranchReadiness::MissingRemote => Some(BlockedReason::MissingRemoteBranch { branch: name }),
        BranchReadiness::Divergence { ahead, behind } => if ahead > 0 && behind > 0 {
            Some(BlockedReason::Diverged { branch: name })
        } else if ahead > 0 {
            Some(BlockedReason::AheadOfOrigin { branch: name })
        } else {
            None
        },
    }
}

/// A ready repository in a dry run: blocked when its default branch cannot be
/// fast-forwarded, planned for a fetch otherwise.
/// The decision of a dry run on a ready repository.
pub open spec fn dry_run_decided(repository: RepositoryDefinition, branch: String, block: Option<BlockedReason>, d: Decision) -> bool {
        d matches Decision::Entry(e) && e.repository@ == repository.display_path_view()
            && e.blocked_details is None && match block {
            Some(reason) => e.outcome == (Outcome::Blocked { reason }),
            None => e.outcome == Outcome::Planned(Plan::Fetch { branch }),
        }
}

pub fn dry_run_decision(repository: &RepositoryDefinition, branch: String, block: Option<
    BlockedReason,
>) -> (d: Decision)
    ensures
        dry_run_decided(*repository, branch, block, d),
{
    match block {
        Some(reason) => Decision::Entry(Entry::new(repository, Outcome::Blocked { reason })),
        None => Decision::Entry(Entry::new(repository, Outcome::Planned(Plan::Fetch { branch }))),
    }
}

/// What Git answered during the check of one repository: whether its
/// destination exists, the inspection, how the default branch stands (asked
/// in a dry run only), and the common Git directory (asked otherwise).
pub struct CheckAnswers {
    pub present: bool,
    pub inspection: Result<Readiness, AppError>,
    pub branch: Result<BranchReadiness, AppError>,
    pub common: Result<String, AppError>,
}

/// The check's result from Git's answers: a missing destination is decided
/// by `missing_decision`; an inspection that settles the repository gives
/// its decision; a ready repository is, in a dry run, blocked or planned as
/// its default branch stands, and otherwise fetched with its common
/// directory; a failed answer is the check's error.
pub open spec fn checked(repository: RepositoryDefinition, dry_run: bool, a: CheckAnswers, res: Result<Decision, AppError>) -> bool {
    if !a.present {
        res matches Ok(d) && missing_decided(repository, dry_run, d)
    } else {
        match a.inspection {
            Err(e) => res == Err::<Decision, AppError>(e),
            Ok(Readiness::Ready { default_branch }) => if dry_run {
                match a.branch {
                    Err(e) => res == Err::<Decision, AppError>(e),
                    Ok(standing) => exists|block: Option<BlockedReason>|
                        branch_block(default_branch@, standing, block) && (res matches Ok(d)
                            && dry_run_decided(repository, default_branch, block, d)),
                }
            } else {
                match a.common {
                    Err(e) => res == Err::<Decision, AppError>(e),
                    Ok(c) => res == Ok::<Decision, AppError>(Decision::Fetch { common_directory: c, default_branch }),
                }
            },
            Ok(readiness) => res matches Ok(d) && readiness_step(repository, readiness, dry_run, ReadinessStep::Settled(d)),
        }
    }
}

/// The answers are the ones `git` gives to the questions the check asks:
/// whether the destination exists; if it does, the inspection; for a ready
/// repository, how its default branch stands in a dry run and its common
/// directory otherwise. Answers to questions not asked are free.
pub open spec fn check_observed<G: GitClient>(git: &G, repository: RepositoryDefinition, dry_run: bool, a: CheckAnswers) -> bool {
    &&& git.finds_path(repository.path_view(), a.present)
    &&& a.present ==> git.inspects(repository, a.inspection)
    &&& a.present ==> (a.inspection matches Ok(Readiness::Ready { default_branch }) ==> if dry_run {
        git.stands(repository, default_branch@, a.branch)
    } else {
        git.shares(repository.path_view(), a.common)
    })
}

/// The check of one repository: missing destinations are cloned, existing
/// ones are inspected, and ready ones are fetched (or, in a dry run, checked
/// for a default branch that cannot be fast-forwarded). Whatever Git
/// answers, a dry run decides on a final entry, and every entry names the
/// repository by its display path.
pub fn check_repository<G: GitClient>(git: &G, repository: &RepositoryDefinition, dry_run: bool) -> (res:
    Result<Decision, AppError>)
    ensures
        res matches Ok(d) ==> (dry_run ==> (d matches Decision::Entry(e) && leaves_untouched(
            e.outcome,
        ))),
        res matches Ok(d) ==> (d matches Decision::Entry(e) ==> e.repository@
            == repository.display_path_view()),
        res matches Ok(d) ==> (d matches Decision::SeedOnly { entry: e } ==> e.repository@
            == repository.display_path_view()),
        res matches Ok(d) ==> (decides_planned(d) ==> dry_run),
        res matches Ok(d) ==> !decides_updated(d),
        exists|answers: CheckAnswers| #[trigger] checked(*repository, dry_run, answers, res)
            && check_observed(git, *repository, dry_run, answers),
{
    let present = git.path_exists(repository.path());
    if !present {
        let d = missing_decision(repository, dry_run);
        let ghost answers = CheckAnswers { present: false, inspection: arbitrary(), branch: arbitrary(), common: arbitrary() };
        assert(checked(*repository, dry_run, answers, Ok::<Decision, AppError>(d)));
        assert(check_observed(git, *repository, dry_run, answers));
        return Ok(d);
    }
    let inspection = git.inspect(repository);
    let ghost inspected = inspection;
    let readiness = match inspection {
        Ok(r) => r,
        Err(e) => {
            let ghost answers = CheckAnswers { present: true, inspection: inspected, branch: arbitrary(), common: arbitrary() };
            assert(checked(*repository, dry_run, answers, Err::<Decision, AppError>(e)));
            assert(check_observed(git, *repository, dry_run, answers));
            return Err(e);
        },
    };
    let ghost observed = readiness;
    let default_branch = match readiness_decision(repository, readiness, dry_run) {
        ReadinessStep::Settled(d) => {
            let ghost answers = CheckAnswers { present: true, inspection: inspected, branch: arbitrary(), common: arbitrary() };
            assert(checked(*repository, dry_run, answers, Ok::<Decision, AppError>(d)));
            assert(check_observed(git, *repository, dry_run, answers));
            return Ok(d);
        },
        ReadinessStep::Ready(b) => b,
    };
    if dry_run {
        let answer = git.branch_readiness(repository, default_branch.as_str());
        let ghost branch_answer = answer;
        let readiness = match answer {
            Ok(r) => r,
            Err(e) => {
                let ghost answers = CheckAnswers { present: true, inspection: inspected, branch: branch_answer, common: arbitrary() };
                assert(checked(*repository, dry_run, answers, Err::<Decision, AppError>(e)));
                assert(check_observed(git, *repository, dry_run, answers));
                return Err(e);
            },
        };
        let block = default_branch_block_reason(default_branch.as_str(), readiness);
        let d = dry_run_decision(repository, default_branch, block);
        let ghost answers = CheckAnswers { present: true, inspection: inspected, branch: branch_answer, common: arbitrary() };
        assert(checked(*repository, dry_run, answers, Ok::<Decision, AppError>(d)));
        assert(check_observed(git, *repository, dry_run, answers));
        return Ok(d);
    }
    let common = git.common_directory(repository.path());
    let ghost answers = CheckAnswers { present: true, inspection: inspected, branch: arbitrary(), common };
    let res = match common {
        Ok(common_directory) => Ok(Decision::Fetch { common_directory, default_branch }),
        Err(e) => Err(e),
    };
    assert(checked(*repository, dry_run, answers, res));
    assert(check_observed(git, *repository, dry_run, answers));
    res
}

/// A dry run of sync on a ready repository follows how Git says its default
/// branch stands: a missing local or remote branch, a diverged branch and a
/// branch ahead of `origin` each block the repository for that reason, named
/// after the branch; only a branch that is not ahead is planned for a fetch.
/// The standing is the answer Git gave for that branch.
pub proof fn law_sync_dry_run_follows_branch_standing<G: GitClient>(
    git: &G,
    repository: RepositoryDefinition,
    a: CheckAnswers,
    res: Result<Decision, AppError>,
    branch: String,
    standing: BranchReadiness,
)
    requires
        checked(repository, true, a, res),
        check_observed(git, repository, true, a),
        a.present,
        a.inspection == Ok::<Readiness, AppError>(Readiness::Ready { default_branch: branch }),
        a.branch == Ok::<BranchReadiness, AppError>(standing),
    ensures
        git.stands(repository, branch@, Ok(standing)),
        res matches Ok(Decision::Entry(e)) && e.repository@ == repository.display_path_view(),
        match standing {
            BranchReadiness::MissingLocal => res matches Ok(Decision::Entry(e)) && (e.outcome matches Outcome::Blocked {
                reason: BlockedReason::MissingLocalBranch { branch: b },
            } && b@ == branch@),
            BranchReadiness::MissingRemote => res matches Ok(Decision::Entry(e)) && (e.outcome matches Outcome::Blocked {
                reason: BlockedReason::MissingRemoteBranch { branch: b },
            } && b@ == branch@),
            BranchReadiness::Divergence { ahead, behind } => if ahead > 0 && behind > 0 {
                res matches Ok(Decision::Entry(e)) && (e.outcome matches Outcome::Blocked {
                    reason: BlockedReason::Diverged { branch: b },
                } && b@ == branch@)
            } else if ahead > 0 {
                res matches Ok(Decision::Entry(e)) && (e.outcome matches Outcome::Blocked {
                    reason: BlockedReason::AheadOfOrigin { branch: b },
                } && b@ == branch@)
            } else {
                res matches Ok(Decision::Entry(e)) && e.outcome == Outcome::Planned(Plan::Fetch { branch })
            },
        },
        (res matches Ok(Decision::Entry(e)) && e.outcome is Planned) ==> (standing matches BranchReadiness::Divergence {
            ahead,
            ..
        } && ahead == 0),
{
    let block = choose|block: Option<BlockedReason>|
        branch_block(branch@, standing, block) && (res matches Ok(d) && dry_run_decided(repository, branch, block, d));
    assert(branch_block(branch@, standing, block));
}

} // verus!
