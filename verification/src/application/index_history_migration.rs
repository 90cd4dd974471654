//! Moving archived index histories into the current store.

use vstd::prelude::*;

use crate::application::{checked_total, count_total};

verus! {

/// Copies every archived index history into the target store and reports the counts.
pub struct IndexHistoryMigrationApplication<Source, Target> {
    source: Source,
    target: Target,
}

impl<Source, Target> IndexHistoryMigrationApplication<Source, Target> {
    /// The collaborators the use case was built with, in the order `new` takes them.
    pub closed spec fn parts(&self) -> (Source, Target) {
        (self.source, self.target)
    }

    pub fn new(source: Source, target: Target) -> (r: Self)
        ensures
            r.parts() == (source, target),
    {
        IndexHistoryMigrationApplication { source, target }
    }
}


/// How many index histories were read, how many daily prices they held, and how many rows the
/// target store counts afterwards.
#[derive(Debug, Clone, Copy, PartialEq, Eq)]
pub struct IndexHistoryMigrationReport {
    pub indices: u64,
    pub source_rows: u64,
    pub target_rows: u64,
}

/// The report of a migration, from the number of daily prices of each archived history and the
/// rows the target store counts; `None` where the prices add up beyond a `u64`.
pub fn index_history_report(prices_per_index: &Vec<u64>, target_rows: u64) -> (r: Option<
    IndexHistoryMigrationReport,
>)
    ensures
        match r {
            Some(rep) => rep.indices == prices_per_index@.len() && rep.source_rows == count_total(
                prices_per_index@,
            ) && rep.target_rows == target_rows,
            None => count_total(prices_per_index@) > u64::MAX,
        },
{
    match checked_total(prices_per_index) {
        Some(source_rows) => Some(
            IndexHistoryMigrationReport {
                indices: prices_per_index.len() as u64,
                source_rows,
                target_rows,
            },
        ),
        None => None,
    }
}

} // verus!
