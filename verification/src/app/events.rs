//! Timing and counting of one phase of a use case, and the events a
//! running use case reports.

use vstd::prelude::*;
use std::time::Duration;
use crate::error::AppError;

verus! {

/// How many repositories a phase changed, and how long the phase took.
#[derive(Debug, Clone, Copy, PartialEq, Eq)]
pub struct PhaseSummary {
    pub count: usize,
    pub elapsed: Duration,
}

impl PhaseSummary {
    pub fn new(count: usize, elapsed: Duration) -> (s: PhaseSummary)
        ensures
            s.count == count,
            s.elapsed == elapsed,
    {
        PhaseSummary { count, elapsed }
    }

    pub fn count(self) -> (n: usize)
        ensures
            n == self.count,
    {
        self.count
    }

    pub fn elapsed(self) -> (d: Duration)
        ensures
            d == self.elapsed,
    {
        self.elapsed
    }
}

/// What a use case reports while it runs, phase by phase, for a progress
/// display. A failure to report ends the run with that error; nothing else is
/// assumed of what the methods do.
pub trait EventSink<P> {
    fn phase_started(&self, phase: P, total: usize) -> Result<(), AppError>;

    fn repository_started(&self, repository: &str, phase: P) -> Result<(), AppError>;

    fn repository_finished(&self, repository: &str, phase: P) -> Result<(), AppError>;

    fn phase_completed(&self, phase: P, summary: PhaseSummary) -> Result<(), AppError>;
}

/// Reports nowhere.
pub struct DiscardEvents;

impl<P> EventSink<P> for DiscardEvents {
    fn phase_started(&self, phase: P, total: usize) -> (r: Result<(), AppError>)
        ensures
            r is Ok,
    {
        Ok(())
    }

    fn repository_started(&self, repository: &str, phase: P) -> (r: Result<(), AppError>)
        ensures
            r is Ok,
    {
        Ok(())
    }

    fn repository_finished(&self, repository: &str, phase: P) -> (r: Result<(), AppError>)
        ensures
            r is Ok,
    {
        Ok(())
    }

    fn phase_completed(&self, phase: P, summary: PhaseSummary) -> (r: Result<(), AppError>)
        ensures
            r is Ok,
    {
        Ok(())
    }
}

} // verus!
