//! The application error, as plain values.

use vstd::prelude::*;

verus! {

/// Every failure the library reports. Each variant carries the message shown
/// to the user.
#[derive(Debug, Clone, PartialEq, Eq)]
pub enum AppError {
    /// `grove.toml` (or a file it includes) is missing, malformed or invalid.
    ConfigError(String),
    /// The command line asked for something that cannot be done.
    InvalidArguments(String),
    /// The local clone cache is in a state the operation cannot use.
    CacheState(String),
    /// A broken internal invariant; never demoted to a per-repository outcome.
    Internal(String),
    /// An operating-system failure, described by its message.
    Io(String),
    /// zoxide could not be run at all.
    ZoxideUnavailable(String),
    /// A zoxide command ran and failed.
    ZoxideCommandFailed { command: String, message: String },
}

impl AppError {
    /// The text a user sees for this error.
    pub open spec fn text(&self) -> Seq<char> {
        match self {
            AppError::ConfigError(m) => m@,
            AppError::InvalidArguments(m) => m@,
            AppError::CacheState(m) => m@,
            AppError::Internal(m) => m@,
            AppError::Io(m) => m@,
            AppError::ZoxideUnavailable(m) => m@,
            AppError::ZoxideCommandFailed { message, .. } => message@,
        }
    }

    /// The text a user sees for this error.
    pub fn message(&self) -> (m: String)
        ensures
            m@ == self.text(),
    {
        match self {
            AppError::ConfigError(m) => m.clone(),
            AppError::InvalidArguments(m) => m.clone(),
            AppError::CacheState(m) => m.clone(),
            AppError::Internal(m) => m.clone(),
            AppError::Io(m) => m.clone(),
            AppError::ZoxideUnavailable(m) => m.clone(),
            AppError::ZoxideCommandFailed { message, .. } => message.clone(),
        }
    }

    /// Whether this is an internal error, which aborts a whole run instead of
    /// becoming one repository's outcome.
    pub fn is_internal(&self) -> (res: bool)
        ensures
            res == (self is Internal),
    {
        match self {
            AppError::Internal(_) => true,
            _ => false,
        }
    }

    /// Turns a non-internal error into its message, so that one input's
    /// failure can be recorded while the run goes on; an internal error is
    /// handed back.
    pub fn demote(self) -> (res: Result<String, AppError>)
        ensures
            self is Internal ==> res == Err::<String, AppError>(self),
            !(self is Internal) ==> (res matches Ok(m) && m@ == self.text()),
    {
        if self.is_internal() {
            Err(self)
        } else {
            Ok(self.message())
        }
    }
}

} // verus!
