//! What one end-of-day synchronization cycle reports.

use vstd::prelude::*;

use crate::application::synchronization::{SynchronizationFailure, SynchronizationReport, TrackedTickersSynchronizationReport};
use crate::port::{port_error_text, PortError};

verus! {

/// What an end-of-day cycle obtained, stored and failed.
#[derive(Debug, Clone, PartialEq, Eq)]
pub struct EndOfDayReport {
    pub items_obtained: usize,
    pub items_stored: u64,
    pub failures: Vec<SynchronizationFailure>,
}

impl EndOfDayReport {
    /// The report of a cycle, starting from the synchronization of the tracked tickers.
    pub fn from_tracked(tracked_report: TrackedTickersSynchronizationReport) -> (r: Self)
        ensures
            r.items_obtained == tracked_report.items_obtained,
            r.items_stored == tracked_report.items_stored,
            r.failures == tracked_report.failures,
    {
        EndOfDayReport {
            items_obtained: tracked_report.items_obtained,
            items_stored: tracked_report.items_stored,
            failures: tracked_report.failures,
        }
    }

    /// Adds what a step obtained and stored.
    pub fn add(&mut self, step: SynchronizationReport)
        requires
            old(self).items_obtained + step.items_obtained <= usize::MAX,
            old(self).items_stored + step.items_stored <= u64::MAX,
        ensures
            final(self).items_obtained == old(self).items_obtained + step.items_obtained,
            final(self).items_stored == old(self).items_stored + step.items_stored,
            final(self).failures == old(self).failures,
    {
        self.items_obtained = self.items_obtained + step.items_obtained;
        self.items_stored = self.items_stored + step.items_stored;
    }

    /// Records a failed step.
    pub fn fail(&mut self, ticker: String, operation: &str, error: &PortError)
        ensures
            final(self).items_obtained == old(self).items_obtained,
            final(self).items_stored == old(self).items_stored,
            final(self).failures@.len() == old(self).failures@.len() + 1,
            final(self).failures@.drop_last() == old(self).failures@,
            final(self).failures@.last().ticker == ticker,
            final(self).failures@.last().operation@ == operation@,
            final(self).failures@.last().error@ == port_error_text(*error),
    {
        self.failures.push(
            SynchronizationFailure { ticker, operation: operation.to_owned(), error: error.message().to_owned() },
        );
    }
}

} // verus!
