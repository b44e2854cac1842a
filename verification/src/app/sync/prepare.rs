//! The prepare and seed phases of sync, and the assembly of the final
//! entries: what each clone or fetch came to, which repositories seed the
//! clone cache, and the check that every repository got an outcome.

use vstd::prelude::*;
use crate::app::entry::Entry;
use crate::cache::Outcome as CacheOutcome;
use crate::error::AppError;
use crate::repositories::RepositoryDefinition;
use super::report::{BlockedReason, Outcome};

verus! {

/// What a clone or a fetch of the prepare phase came to.
#[derive(Debug, PartialEq, Eq)]
pub enum Completion {
    /// The outcome is final; `prepared` tells whether the phase counts it.
    Entry { entry: Entry<Outcome>, prepared: bool },
    /// The fetch succeeded; the repository goes on to the update phase.
    Update,
}

/// A clone through the cache: cloned on success, blocked on a failure that
/// concerns this repository alone; an internal error aborts the run.
/// What a clone through the cache came to, from the cache's result.
pub open spec fn clone_completed(repository: RepositoryDefinition, result: Result<CacheOutcome, AppError>, res: Result<Completion, AppError>) -> bool {
    match result {
        Ok(cache) => res matches Ok(Completion::Entry { entry: e, prepared: true })
            && e.repository@ == repository.display_path_view() && e.blocked_details is None
            && (e.outcome matches Outcome::Cloned { url, cache: c } && url@ == repository.url_view()
            && c == cache),
        Err(err) => if err is Internal {
            res == Err::<Completion, AppError>(err)
        } else {
            res matches Ok(Completion::Entry { entry: e, prepared: false }) && e.repository@
                == repository.display_path_view() && e.blocked_details is None
                && (e.outcome matches Outcome::Blocked { reason: BlockedReason::CloneFailed(m) }
                && m@ == err.text())
        },
    }
}

pub fn clone_completion(repository: &RepositoryDefinition, result: Result<CacheOutcome, AppError>) -> (res:
    Result<Completion, AppError>)
    ensures
        clone_completed(*repository, result, res),
{
    match result {
        Ok(cache) => {
            let url = String::from_str(repository.url().as_str());
            Ok(
                Completion::Entry {
                    entry: Entry::new(repository, Outcome::Cloned { url, cache }),
                    prepared: true,
                },
            )
        },
        Err(err) => match err.demote() {
            Err(internal) => Err(internal),
            Ok(message) => Ok(
                Completion::Entry {
                    entry: Entry::new(
                        repository,
                        Outcome::Blocked { reason: BlockedReason::CloneFailed(message) },
                    ),
                    prepared: false,
                },
            ),
        },
    }
}

/// A fetch: the repository goes on to be updated on success, is blocked on a
/// failure that concerns it alone; an internal error aborts the run.
/// What a fetch came to, from Git's result.
pub open spec fn fetch_completed(repository: RepositoryDefinition, result: Result<(), AppError>, res: Result<Completion, AppError>) -> bool {
    match result {
        Ok(()) => res == Ok::<Completion, AppError>(Completion::Update),
        Err(err) => if err is Internal {
            res == Err::<Completion, AppError>(err)
        } else {
            res matches Ok(Completion::Entry { entry: e, prepared: false }) && e.repository@
                == repository.display_path_view() && e.blocked_details is None
                && (e.outcome matches Outcome::Blocked { reason: BlockedReason::FetchFailed(m) }
                && m@ == err.text())
        },
    }
}

pub fn fetch_completion(repository: &RepositoryDefinition, result: Result<(), AppError>) -> (res:
    Result<Completion, AppError>)
    ensures
        fetch_completed(*repository, result, res),
{
    match result {
        Ok(()) => Ok(Completion::Update),
        Err(err) => match err.demote() {
            Err(internal) => Err(internal),
            Ok(message) => Ok(
                Completion::Entry {
                    entry: Entry::new(
                        repository,
                        Outcome::Blocked { reason: BlockedReason::FetchFailed(message) },
                    ),
                    prepared: false,
                },
            ),
        },
    }
}

/// Whether some position in `positions` holds a repository with this URL.
pub open spec fn url_taken(repositories: Seq<RepositoryDefinition>, positions: Seq<usize>, url: Seq<
    char,
>) -> bool {
    exists|t: int|
        0 <= t < positions.len() && (#[trigger] repositories[positions[t] as int]).url_view() == url
}

fn find_url(repositories: &[RepositoryDefinition], positions: &Vec<usize>, url: &str) -> (found: bool)
    requires
        forall|t: int| 0 <= t < positions@.len() ==> positions@[t] < repositories@.len(),
    ensures
        found == url_taken(repositories@, positions@, url@),
{
    let mut j: usize = 0;
    while j < positions.len()
        invariant
            j <= positions@.len(),
            forall|t: int| 0 <= t < positions@.len() ==> positions@[t] < repositories@.len(),
            forall|t: int|
                0 <= t < j ==> (#[trigger] repositories@[positions@[t] as int]).url_view() != url@,
        decreases positions@.len() - j,
    {
        if same_str(repositories[positions[j]].url().as_str(), url) {
            assert(repositories@[positions@[j as int] as int].url_view() == url@);
            return true;
        }
        j = j + 1;
    }
    false
}

/// The repositories that seed the clone cache: of the given positions, the
/// first with each URL, in order. Each distinct URL is seeded once.
#[verifier::rlimit(40)]
pub fn seed_candidates(repositories: &[RepositoryDefinition], indices: &Vec<usize>) -> (out: Vec<
    usize,
>)
    requires
        forall|j: int| 0 <= j < indices@.len() ==> indices@[j] < repositories@.len(),
    ensures
        forall|a: int, b: int|
            0 <= a < b < out@.len() ==> repositories@[out@[a] as int].url_view()
                != repositories@[out@[b] as int].url_view(),
        forall|j: int| 0 <= j < out@.len() ==> indices@.contains(#[trigger] out@[j]),
        forall|i: int|
            0 <= i < indices@.len() ==> url_taken(
                repositories@,
                out@,
                (#[trigger] repositories@[indices@[i] as int]).url_view(),
            ),
{
    let mut out: Vec<usize> = Vec::new();
    let mut i: usize = 0;
    while i < indices.len()
        invariant
            i <= indices@.len(),
            forall|j: int| 0 <= j < indices@.len() ==> indices@[j] < repositories@.len(),
            forall|j: int| 0 <= j < out@.len() ==> out@[j] < repositories@.len(),
            forall|a: int, b: int|
                0 <= a < b < out@.len() ==> repositories@[out@[a] as int].url_view()
                    != repositories@[out@[b] as int].url_view(),
            forall|j: int| 0 <= j < out@.len() ==> indices@.contains(#[trigger] out@[j]),
            forall|m: int|
                0 <= m < i ==> url_taken(
                    repositories@,
                    out@,
                    (#[trigger] repositories@[indices@[m] as int]).url_view(),
                ),
        decreases indices@.len() - i,
    {
        let candidate = indices[i];
        let url = repositories[candidate].url().as_str();
        let ghost before = out@;
        if !find_url(repositories, &out, url) {
            out.push(candidate);
            proof {
                assert(out@[out@.len() - 1] == candidate);
                assert(indices@[i as int] == candidate);
                assert forall|m: int|
                    0 <= m < i + 1 implies url_taken(
                    repositories@,
                    out@,
                    (#[trigger] repositories@[indices@[m] as int]).url_view(),
                ) by {
                    if m < i {
                        let u = repositories@[indices@[m] as int].url_view();
                        let t = choose|t: int|
                            0 <= t < before.len() && (#[trigger] repositories@[before[t] as int]).url_view()
                                == u;
                        assert(out@[t] == before[t]);
                    } else {
                        assert(repositories@[out@[out@.len() - 1] as int].url_view()
                            == repositories@[indices@[m] as int].url_view());
                    }
                }
                assert forall|j: int| 0 <= j < out@.len() implies indices@.contains(
                    #[trigger] out@[j],
                ) by {
                    if j < before.len() {
                        assert(out@[j] == before[j]);
                    } else {
                        assert(indices@[i as int] == out@[j]);
                    }
                }
            }
        }
        i = i + 1;
    }
    out
}

/// Whether two texts are equal.
pub fn same_str(a: &str, b: &str) -> (res: bool)
    ensures
        res == (a@ == b@),
{
    String::from_str(a) == String::from_str(b)
}

/// The note kept on an entry whose cache seeding failed; an internal error
/// aborts the run instead.
pub fn seed_warning(result: Result<(), AppError>) -> (res: Result<Option<String>, AppError>)
    ensures
        match result {
            Ok(()) => res == Ok::<Option<String>, AppError>(None),
            Err(err) => if err is Internal {
                res == Err::<Option<String>, AppError>(err)
            } else {
                res matches Ok(Some(m)) && m@ == err.text()
            },
        },
{
    match result {
        Ok(()) => Ok(None),
        Err(err) => match err.demote() {
            Err(internal) => Err(internal),
            Ok(message) => Ok(Some(message)),
        },
    }
}

} // verus!
