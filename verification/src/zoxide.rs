//! The boundary to zoxide, the directory jumper that `sync` registers
//! repositories with.

use vstd::prelude::*;
use crate::error::AppError;

verus! {

/// What `sync` asks of zoxide. The command-line client implements it outside
/// the library.
///
/// Asking whether zoxide runs answers within a relation that admits every
/// answer unless an implementation narrows it; a contract stated over it
/// holds whatever it is, and so speaks of the answer zoxide actually gave.
pub trait ZoxideClient {
    /// The client may answer `answer` when asked whether zoxide runs.
    closed spec fn runs(&self, answer: Result<(), AppError>) -> bool {
        true
    }

    /// Whether zoxide can be run at all.
    fn verify_available(&self) -> (res: Result<(), AppError>)
        ensures
            self.runs(res);

    /// Whether zoxide stores paths with symbolic links resolved.
    fn resolve_symlinks(&self) -> bool;

    /// The directories zoxide knows, as it lists them.
    fn entries(&self) -> Result<Vec<String>, AppError>;

    /// Registers one directory.
    fn add(&self, path: &str) -> Result<(), AppError>;

    /// The path with symbolic links resolved, as the file system gives it, or
    /// the reason it could not be resolved.
    fn canonicalize(&self, path: &str) -> Result<String, String>;
}

} // verus!
