//! The per-repository line of a report, shared by the sync and refresh use
//! cases; the outcome vocabulary differs per use case, so the entry is
//! generic over it.

use vstd::prelude::*;
use crate::error::AppError;
use crate::repositories::RepositoryDefinition;

verus! {

/// Extra detail kept beside a blocked outcome.
#[derive(Debug, Clone, PartialEq, Eq)]
pub enum BlockedReasonDetails {
    RemoteUrlMismatch { actual: String, expected: String },
}

/// One repository of a report: its display path, what happened to it, and an
/// optional note added after the fact (such as a failed cache seeding).
#[derive(Debug, Clone, PartialEq, Eq)]
pub struct Entry<O> {
    pub repository: String,
    pub outcome: O,
    pub blocked_details: Option<BlockedReasonDetails>,
    pub warning: Option<String>,
}

impl<O> Entry<O> {
    pub fn new(repository: &RepositoryDefinition, outcome: O) -> (e: Self)
        ensures
            e.repository@ == repository.display_path_view(),
            e.outcome == outcome,
            e.blocked_details is None,
            e.warning is None,
    {
        Entry {
            repository: String::from_str(repository.display_path()),
            outcome,
            blocked_details: None,
            warning: None,
        }
    }

    pub fn blocked_with_details(
        repository: &RepositoryDefinition,
        outcome: O,
        blocked_details: BlockedReasonDetails,
    ) -> (e: Self)
        ensures
            e.repository@ == repository.display_path_view(),
            e.outcome == outcome,
            e.blocked_details == Some(blocked_details),
            e.warning is None,
    {
        Entry {
            repository: String::from_str(repository.display_path()),
            outcome,
            blocked_details: Some(blocked_details),
            warning: None,
        }
    }

    pub fn repository(&self) -> (r: &str)
        ensures
            r@ == self.repository@,
    {
        self.repository.as_str()
    }

    pub fn outcome(&self) -> (o: &O)
        ensures
            *o == self.outcome,
    {
        &self.outcome
    }

    pub fn blocked_details(&self) -> (d: Option<&BlockedReasonDetails>)
        ensures
            match d {
                Some(d) => self.blocked_details == Some(*d),
                None => self.blocked_details is None,
            },
    {
        self.blocked_details.as_ref()
    }

    pub fn warning(&self) -> (w: Option<&String>)
        ensures
            match w {
                Some(w) => self.warning == Some(*w),
                None => self.warning is None,
            },
    {
        self.warning.as_ref()
    }

    /// Attaches a note to an entry whose outcome is already final.
    pub fn set_warning(&mut self, message: String)
        ensures
            final(self).repository == old(self).repository,
            final(self).outcome == old(self).outcome,
            final(self).blocked_details == old(self).blocked_details,
            final(self).warning == Some(message),
    {
        self.warning = Some(message);
    }
}

/// Every filled slot holds the entry of the repository at its position.
pub open spec fn slot_names<O>(slots: Seq<Option<Entry<O>>>, repositories: Seq<RepositoryDefinition>) -> bool {
    forall|j: int|
        #![trigger slots[j]]
        0 <= j < slots.len() ==> match slots[j] {
            Some(e) => e.repository@ == repositories[j].display_path_view(),
            None => true,
        }
}

/// One entry per repository, in the same order, each named by the
/// repository's display path.
pub open spec fn one_entry_each<O>(entries: Seq<Entry<O>>, repositories: Seq<RepositoryDefinition>) -> bool {
    &&& entries.len() == repositories.len()
    &&& forall|k: int|
        0 <= k < entries.len() ==> (#[trigger] entries[k]).repository@
            == repositories[k].display_path_view()
}

pub open spec fn no_outcome_text() -> Seq<char> {
    "selected repository produced no outcome"@
}

pub open spec fn all_filled<O>(slots: Seq<Option<Entry<O>>>) -> bool {
    forall|i: int| 0 <= i < slots.len() ==> (#[trigger] slots[i]) is Some
}

/// The final entries, one per selected repository in order; a repository left
/// without an outcome is an internal error.
pub fn complete_entries<O>(slots: Vec<Option<Entry<O>>>) -> (res: Result<Vec<Entry<O>>, AppError>)
    ensures
        all_filled(slots@) ==> (res matches Ok(
            entries,
        ) && entries@.len() == slots@.len() && forall|i: int|
            0 <= i < slots@.len() ==> slots@[i] == Some(#[trigger] entries@[i])),
        !all_filled(slots@) ==> (res matches Err(
            AppError::Internal(m),
        ) && m@ == no_outcome_text()),
{
    let ghost original = slots@;
    let mut rest = slots;
    let mut entries: Vec<Entry<O>> = Vec::new();
    let n = rest.len();
    let mut i: usize = 0;
    while i < n
        invariant
            original == slots@,
            n == original.len(),
            i <= n,
            rest@ == original.skip(i as int),
            entries@.len() == i,
            forall|j: int| 0 <= j < i ==> original[j] == Some(#[trigger] entries@[j]),
        decreases n - i,
    {
        assert(rest@[0] == original[i as int]);
        let slot = rest.remove(0);
        assert(rest@ == original.skip(i + 1));
        assert(slot == original[i as int]);
        match slot {
            Some(entry) => entries.push(entry),
            None => {
                assert(!all_filled(original));
                return Err(
                    AppError::Internal(String::from_str("selected repository produced no outcome")),
                );
            },
        }
        i = i + 1;
    }
    assert forall|j: int| 0 <= j < n implies (#[trigger] original[j]) is Some by {
        assert(original[j] == Some(entries@[j]));
    }
    assert(all_filled(original));
    Ok(entries)
}

} // verus!
