//! The check phase of refresh: which repositories can be put on their
//! default branch before any network work.

use vstd::prelude::*;
use crate::app::entry::{BlockedReasonDetails, Entry};
use crate::error::AppError;
use crate::git::{BranchReadiness, GitClient, Readiness};
use crate::repositories::RepositoryDefinition;
use crate::app::sync::check::CheckAnswers;
use super::report::{BlockedReason, Outcome, SkippedReason};

verus! {

/// The check phase's verdict on one repository.
#[derive(Debug, PartialEq, Eq)]
pub enum Decision {
    /// The outcome is already final.
    Entry(Entry<Outcome>),
    /// The repository is ready: fetch it, then refresh this branch.
    Fetch { common_directory: String, default_branch: String },
    /// The repository is ready, and the run is a dry run.
    DryRun { common_directory: String, default_branch: String },
}

/// The outcome an inspection settles a repository with; a ready repository
/// is settled by none.
pub open spec fn settles(readiness: Readiness, outcome: Outcome) -> bool {
    match readiness {
        Readiness::NotAWorkTree => outcome == (Outcome::Blocked {
            reason: BlockedReason::DestinationNotGitRepository,
        }),
        Readiness::MissingOrigin => outcome == (Outcome::Blocked {
            reason: BlockedReason::MissingOrigin,
        }),
        Readiness::UrlMismatch { .. } => outcome == (Outcome::Blocked {
            reason: BlockedReason::RemoteUrlMismatch,
        }),
        Readiness::DetachedHead => outcome == (Outcome::Blocked {
            reason: BlockedReason::DetachedHead,
        }),
        Readiness::DirtyTree => outcome == (Outcome::Skipped {
            reason: SkippedReason::DirtyWorkingTree,
        }),
        Readiness::NoDefaultBranch => outcome == (Outcome::Blocked {
            reason: BlockedReason::MissingRemoteDefaultBranch,
        }),
        Readiness::Ready { .. } => false,
    }
}

/// The result of `readiness_entry`: the default branch of a ready
/// repository, or the entry its inspection settles it with.
pub open spec fn readiness_entered(repository: RepositoryDefinition, readiness: Readiness, res: Result<String, Entry<Outcome>>) -> bool {
    match readiness {
        Readiness::Ready { default_branch } => res == Ok::<String, Entry<Outcome>>(default_branch),
        Readiness::UrlMismatch { actual, expected } => res matches Err(e) && e.repository@
            == repository.display_path_view() && settles(readiness, e.outcome)
            && e.blocked_details == Some(BlockedReasonDetails::RemoteUrlMismatch { actual, expected })
            && e.warning is None,
        _ => res matches Err(e) && e.repository@ == repository.display_path_view() && settles(
            readiness,
            e.outcome,
        ) && e.blocked_details is None && e.warning is None,
    }
}

/// A repository's outcome settled by its inspection, or its default branch
/// when it is ready.
pub fn readiness_entry(repository: &RepositoryDefinition, readiness: Readiness) -> (res: Result<
    String,
    Entry<Outcome>,
>)
    ensures
        readiness_entered(*repository, readiness, res),
{
    match readiness {
        Readiness::NotAWorkTree => Err(
            Entry::new(
                repository,
                Outcome::Blocked { reason: BlockedReason::DestinationNotGitRepository },
            ),
        ),
        Readiness::MissingOrigin => Err(
            Entry::new(repository, Outcome::Blocked { reason: BlockedReason::MissingOrigin }),
        ),
        Readiness::UrlMismatch { actual, expected } => Err(
            Entry::blocked_with_details(
                repository,
                Outcome::Blocked { reason: BlockedReason::RemoteUrlMismatch },
                BlockedReasonDetails::RemoteUrlMismatch { actual, expected },
            ),
        ),
        Readiness::DetachedHead => Err(
            Entry::new(repository, Outcome::Blocked { reason: BlockedReason::DetachedHead }),
        ),
        Readiness::DirtyTree => Err(
            Entry::new(repository, Outcome::Skipped { reason: SkippedReason::DirtyWorkingTree }),
        ),
        Readiness::NoDefaultBranch => Err(
            Entry::new(
                repository,
                Outcome::Blocked { reason: BlockedReason::MissingRemoteDefaultBranch },
            ),
        ),
        Readiness::Ready { default_branch } => Ok(default_branch),
    }
}

/// Why a default branch cannot be fast-forwarded, if it cannot: it is
/// missing on either side, it has diverged, or it is ahead of `origin`.
pub open spec fn branch_block(branch: Seq<char>, readiness: BranchReadiness, reason: Option<
    BlockedReason,
>) -> bool {
    match readiness {
        BranchReadiness::MissingLocal => reason matches Some(
            BlockedReason::MissingLocalBranch { branch: b },
        ) && b@ == branch,
        BranchReadiness::MissingRemote => reason matches Some(
            BlockedReason::MissingRemoteBranch { branch: b },
        ) && b@ == branch,
        BranchReadiness::Divergence { ahead, behind } => if ahead > 0 && behind > 0 {
            reason matches Some(BlockedReason::Diverged { branch: b }) && b@ == branch
        } else if ahead > 0 {
            reason matches Some(BlockedReason::AheadOfOrigin { branch: b }) && b@ == branch
        } else {
            reason is None
        },
    }
}

pub fn refresh_block_reason(branch: &str, readiness: BranchReadiness) -> (reason: Option<
    BlockedReason,
>)
    ensures
        branch_block(branch@, readiness, reason),
{
    let name = String::from_str(branch);
    match readiness {
        BranchReadiness::MissingLocal => Some(BlockedReason::MissingLocalBranch { branch: name }),
        BranchReadiness::MissingRemote => Some(BlockedReason::MissingRemoteBranch { branch: name }),
        BranchReadiness::Divergence { ahead, behind } => if ahead > 0 && behind > 0 {
            Some(BlockedReason::Diverged { branch: name })
        } else if ahead > 0 {
            Some(BlockedReason::AheadOfOrigin { branch: name })
        } else {
            None
        },
    }
}

/// A final entry for the repository, with the given outcome and nothing
/// beside it.
pub open spec fn plain_entry(repository: RepositoryDefinition, outcome: Outcome, d: Decision) -> bool {
    d matches Decision::Entry(e) && e.repository@ == repository.display_path_view()
        && e.outcome == outcome && e.blocked_details is None && e.warning is None
}

/// The check's result from Git's answers: a missing destination is blocked,
/// since refresh never clones; an inspection that settles the repository
/// gives its entry; a ready repository is, in a dry run, blocked when its
/// default branch cannot be fast-forwarded; then the common directory gives
/// a dry-run or a fetch decision; a failed answer is the check's error.
pub open spec fn checked(repository: RepositoryDefinition, dry_run: bool, a: CheckAnswers, res: Result<Decision, AppError>) -> bool {
    if !a.present {
        res matches Ok(d) && plain_entry(
            repository,
            Outcome::Blocked { reason: BlockedReason::MissingRepository },
            d,
        )
    } else {
        match a.inspection {
            Err(e) => res == Err::<Decision, AppError>(e),
            Ok(Readiness::Ready { default_branch }) => {
                let common = match a.common {
                    Err(e) => res == Err::<Decision, AppError>(e),
                    Ok(c) => if dry_run {
                        res == Ok::<Decision, AppError>(Decision::DryRun { common_directory: c, default_branch })
                    } else {
                        res == Ok::<Decision, AppError>(Decision::Fetch { common_directory: c, default_branch })
                    },
                };
                if dry_run {
                    match a.branch {
                        Err(e) => res == Err::<Decision, AppError>(e),
                        Ok(standing) => exists|block: Option<BlockedReason>|
                            #[trigger] branch_block(default_branch@, standing, block) && match block {
                                Some(reason) => res matches Ok(d) && plain_entry(
                                    repository,
                                    Outcome::Blocked { reason },
                                    d,
                                ),
                                None => common,
                            },
                    }
                } else {
                    common
                }
            },
            Ok(readiness) => exists|settled: Result<String, Entry<Outcome>>|
                #[trigger] readiness_entered(repository, readiness, settled) && (settled matches Err(e)
                    && res == Ok::<Decision, AppError>(Decision::Entry(e))),
        }
    }
}

/// The answers are the ones `git` gives to the questions the check asks:
/// whether the destination exists; if it does, the inspection; for a ready
/// repository, how its default branch stands in a dry run, and its common
/// directory unless that branch blocks the dry run. Answers to questions
/// not asked are free.
pub open spec fn check_observed<G: GitClient>(git: &G, repository: RepositoryDefinition, dry_run: bool, a: CheckAnswers) -> bool {
    &&& git.finds_path(repository.path_view(), a.present)
    &&& a.present ==> git.inspects(repository, a.inspection)
    &&& a.present ==> (a.inspection matches Ok(Readiness::Ready { default_branch }) ==> {
        &&& dry_run ==> git.stands(repository, default_branch@, a.branch)
        &&& (!dry_run || (a.branch matches Ok(standing) && branch_block(default_branch@, standing, None)))
            ==> git.shares(repository.path_view(), a.common)
    })
}

/// The check of one repository. A missing destination is blocked (refresh
/// never clones); an existing one is inspected; in a dry run a default branch
/// that cannot be fast-forwarded blocks the repository at once. Whatever Git
/// answers, every entry names the repository by its display path, only a
/// dry run yields `DryRun`, and the result is what `checked` makes of the
/// answers.
pub fn check_repository<G: GitClient>(git: &G, repository: &RepositoryDefinition, dry_run: bool) -> (res:
    Result<Decision, AppError>)
    ensures
        res matches Ok(d) ==> (d matches Decision::Entry(e) ==> e.repository@
            == repository.display_path_view() && (e.outcome is Blocked || e.outcome is Skipped)),
        res matches Ok(d) ==> (dry_run ==> !(d is Fetch)),
        res matches Ok(d) ==> (!dry_run ==> !(d is DryRun)),
        res matches Ok(d) ==> (d matches Decision::Entry(e) ==> !super::tasks::conflict_blocked(e.outcome)),
        exists|answers: CheckAnswers| #[trigger] checked(*repository, dry_run, answers, res)
            && check_observed(git, *repository, dry_run, answers),
{
    let present = git.path_exists(repository.path());
    if !present {
        let res = Ok(
            Decision::Entry(
                Entry::new(repository, Outcome::Blocked { reason: BlockedReason::MissingRepository }),
            ),
        );
        let ghost answers = CheckAnswers { present: false, inspection: arbitrary(), branch: arbitrary(), common: arbitrary() };
        assert(checked(*repository, dry_run, answers, res));
        assert(check_observed(git, *repository, dry_run, answers));
        return res;
    }
    let inspection = git.inspect(repository);
    let ghost inspected = inspection;
    let readiness = match inspection {
        Ok(r) => r,
        Err(e) => {
            let ghost answers = CheckAnswers { present: true, inspection: inspected, branch: arbitrary(), common: arbitrary() };
            assert(checked(*repository, dry_run, answers, Err::<Decision, AppError>(e)));
            assert(check_observed(git, *repository, dry_run, answers));
            return Err(e);
        },
    };
    let settled = readiness_entry(repository, readiness);
    let ghost settled_view = settled;
    let default_branch = match settled {
        Err(entry) => {
            let ghost answers = CheckAnswers { present: true, inspection: inspected, branch: arbitrary(), common: arbitrary() };
            assert(readiness_entered(*repository, readiness, settled_view));
            assert(checked(*repository, dry_run, answers, Ok::<Decision, AppError>(Decision::Entry(entry))));
            assert(check_observed(git, *repository, dry_run, answers));
            return Ok(Decision::Entry(entry));
        },
        Ok(b) => b,
    };
    let ghost mut branch_answer: Result<BranchReadiness, AppError> = arbitrary();
    let ghost mut block_seen: Option<BlockedReason> = None;
    if dry_run {
        let answer = git.branch_readiness(repository, default_branch.as_str());
        proof { branch_answer = answer; }
        let readiness = match answer {
            Ok(r) => r,
            Err(e) => {
                let ghost answers = CheckAnswers { present: true, inspection: inspected, branch: branch_answer, common: arbitrary() };
                assert(checked(*repository, dry_run, answers, Err::<Decision, AppError>(e)));
                assert(check_observed(git, *repository, dry_run, answers));
                return Err(e);
            },
        };
        let block = refresh_block_reason(default_branch.as_str(), readiness);
        proof { block_seen = block; }
        match block {
            Some(reason) => {
                let res = Ok(Decision::Entry(Entry::new(repository, Outcome::Blocked { reason })));
                let ghost answers = CheckAnswers { present: true, inspection: inspected, branch: branch_answer, common: arbitrary() };
                assert(branch_block(default_branch@, readiness, block_seen));
                assert(checked(*repository, dry_run, answers, res));
                assert(check_observed(git, *repository, dry_run, answers));
                return res;
            },
            None => {},
        }
    }
    let common = git.common_directory(repository.path());
    let ghost answers = CheckAnswers { present: true, inspection: inspected, branch: branch_answer, common };
    let res = match common {
        Ok(common_directory) => if dry_run {
            Ok(Decision::DryRun { common_directory, default_branch })
        } else {
            Ok(Decision::Fetch { common_directory, default_branch })
        },
        Err(e) => Err(e),
    };
    proof {
        if dry_run {
            assert(branch_block(default_branch@, branch_answer->Ok_0, block_seen));
        }
    }
    assert(checked(*repository, dry_run, answers, res));
    assert(check_observed(git, *repository, dry_run, answers));
    res
}

/// A dry run of refresh on a ready repository follows how Git says its
/// default branch stands: a missing local or remote branch, a diverged
/// branch and a branch ahead of `origin` each block the repository for that
/// reason, named after the branch; it reaches the dry-run decision on that
/// branch only when the branch is not ahead. The standing is the answer Git
/// gave for that branch.
pub proof fn law_refresh_dry_run_follows_branch_standing<G: GitClient>(
    git: &G,
    repository: RepositoryDefinition,
    a: CheckAnswers,
    res: Result<Decision, AppError>,
    branch: String,
    standing: BranchReadiness,
)
    requires
        checked(repository, true, a, res),
        check_observed(git, repository, true, a),
        a.present,
        a.inspection == Ok::<Readiness, AppError>(Readiness::Ready { default_branch: branch }),
        a.branch == Ok::<BranchReadiness, AppError>(standing),
    ensures
        git.stands(repository, branch@, Ok(standing)),
        match standing {
            BranchReadiness::MissingLocal => res matches Ok(Decision::Entry(e)) && (e.outcome matches Outcome::Blocked {
                reason: BlockedReason::MissingLocalBranch { branch: b },
            } && b@ == branch@),
            BranchReadiness::MissingRemote => res matches Ok(Decision::Entry(e)) && (e.outcome matches Outcome::Blocked {
                reason: BlockedReason::MissingRemoteBranch { branch: b },
            } && b@ == branch@),
            BranchReadiness::Divergence { ahead, behind } => if ahead > 0 && behind > 0 {
                res matches Ok(Decision::Entry(e)) && (e.outcome matches Outcome::Blocked {
                    reason: BlockedReason::Diverged { branch: b },
                } && b@ == branch@)
            } else if ahead > 0 {
                res matches Ok(Decision::Entry(e)) && (e.outcome matches Outcome::Blocked {
                    reason: BlockedReason::AheadOfOrigin { branch: b },
                } && b@ == branch@)
            } else {
                match a.common {
                    Ok(c) => res == Ok::<Decision, AppError>(Decision::DryRun { common_directory: c, default_branch: branch }),
                    Err(x) => res == Err::<Decision, AppError>(x),
                }
            },
        },
        res matches Ok(Decision::Entry(e)) ==> e.repository@ == repository.display_path_view(),
        res matches Ok(Decision::DryRun { .. }) ==> (standing matches BranchReadiness::Divergence {
            ahead,
            ..
        } && ahead == 0),
{
    let block = choose|block: Option<BlockedReason>|
        #[trigger] branch_block(branch@, standing, block) && match block {
            Some(reason) => res matches Ok(d) && plain_entry(repository, Outcome::Blocked { reason }, d),
            None => match a.common {
                Err(e) => res == Err::<Decision, AppError>(e),
                Ok(c) => res == Ok::<Decision, AppError>(Decision::DryRun { common_directory: c, default_branch: branch }),
            },
        };
    assert(branch_block(branch@, standing, block));
}

} // verus!
