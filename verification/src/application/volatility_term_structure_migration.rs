//! Moving archived volatility term structures into the current store.

use vstd::prelude::*;

use crate::application::{checked_total, count_total};

verus! {

/// Copies every archived term structure into the target store and reports the counts.
pub struct VolatilityTermStructureMigrationApplication<Source, Target> {
    source: Source,
    target: Target,
}

impl<Source, Target> VolatilityTermStructureMigrationApplication<Source, Target> {
    /// The collaborators the use case was built with, in the order `new` takes them.
    pub closed spec fn parts(&self) -> (Source, Target) {
        (self.source, self.target)
    }

    pub fn new(source: Source, target: Target) -> (r: Self)
        ensures
            r.parts() == (source, target),
    {
        VolatilityTermStructureMigrationApplication { source, target }
    }
}


/// How many term structures were read, how many points they held, and how many points the
/// target store counts afterwards.
#[derive(Debug, Clone, Copy, PartialEq, Eq)]
pub struct VolatilityTermStructureMigrationReport {
    pub structures: u64,
    pub source_points: u64,
    pub target_points: u64,
}

/// The report of a migration, from the number of points of each archived term structure and
/// the points the target store counts; `None` where the points add up beyond a `u64`.
pub fn term_structure_report(points_per_structure: &Vec<u64>, target_points: u64) -> (r: Option<
    VolatilityTermStructureMigrationReport,
>)
    ensures
        match r {
            Some(rep) => rep.structures == points_per_structure@.len() && rep.source_points
                == count_total(points_per_structure@) && rep.target_points == target_points,
            None => count_total(points_per_structure@) > u64::MAX,
        },
{
    match checked_total(points_per_structure) {
        Some(source_points) => Some(
            VolatilityTermStructureMigrationReport {
                structures: points_per_structure.len() as u64,
                source_points,
                target_points,
            },
        ),
        None => None,
    }
}

} // verus!
