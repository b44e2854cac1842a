//! The boundaries a use case works through: Git, zoxide, the clone cache and
//! the clock.

use vstd::prelude::*;
use std::time::Duration;
use crate::cache::Outcome as CacheOutcome;
use crate::error::AppError;
use crate::git::{text_option, GitClient};
use crate::zoxide::ZoxideClient;

verus! {

/// The local clone cache as the use cases use it. The store on disk
/// implements it outside the library.
///
/// Placing a clone answers within a relation between what is handed to it
/// and the answer, which admits every answer unless an implementation
/// narrows it; a contract stated over it holds whatever it is, and so speaks
/// of the answer the store actually gave.
pub trait CacheStore {
    /// The store may answer `answer` when asked to clone `url` into
    /// `destination`, inside the grove at `grove_root` if any, on `branch`
    /// if given.
    closed spec fn places(&self, url: Seq<char>, destination: Seq<char>, grove_root: Option<Seq<char>>, branch: Option<Seq<char>>, answer: Result<CacheOutcome, AppError>) -> bool {
        true
    }

    /// Clones `url` into `destination`, borrowing objects from the cache
    /// entry for the URL, which is created or refreshed first. Inside a grove
    /// (`grove_root`), the destination must still resolve below the root.
    fn place(&self, url: &str, destination: &str, grove_root: Option<&str>, branch: Option<&str>) -> (res: Result<CacheOutcome, AppError>)
        ensures
            self.places(url@, destination@, text_option(grove_root), text_option(branch), res);

    /// Whether an entry for `url` exists.
    fn is_cached(&self, url: &str) -> bool;

    /// Creates the entry for `url` from a local clone's objects, unless one
    /// exists; says whether one was created.
    fn seed_from_local(&self, url: &str, source: &str) -> Result<bool, AppError>;

    /// Removes the entry for `url`; says whether there was one.
    fn remove(&self, url: &str) -> Result<bool, AppError>;

    /// Removes every entry; says how many there were.
    fn clean_all(&self) -> Result<usize, AppError>;
}

/// Time as the reports measure it.
pub trait Clock {
    /// A point in time to measure from.
    fn mark(&self) -> u64;

    /// The time since `mark`.
    fn elapsed_since(&self, mark: u64) -> Duration;
}

/// Git and zoxide, as one context handed to the use cases.
pub struct AppContext<G, Z> {
    pub git: G,
    pub zoxide: Z,
}

impl<G: GitClient, Z: ZoxideClient> AppContext<G, Z> {
    pub fn new(git: G, zoxide: Z) -> (c: Self)
        ensures
            c.git == git,
            c.zoxide == zoxide,
    {
        AppContext { git, zoxide }
    }

    pub fn git(&self) -> (g: &G)
        ensures
            *g == self.git,
    {
        &self.git
    }

    pub fn zoxide(&self) -> (z: &Z)
        ensures
            *z == self.zoxide,
    {
        &self.zoxide
    }
}

} // verus!
