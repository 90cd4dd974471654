//! Moving saved strategies into the current store.

use vstd::prelude::*;

use crate::application::{checked_total, count_total};

verus! {

/// Imports every saved strategy into the target store and reports the counts.
pub struct StrategyMigrationApplication<Source, Target> {
    source: Source,
    target: Target,
}

impl<Source, Target> StrategyMigrationApplication<Source, Target> {
    /// The collaborators the use case was built with, in the order `new` takes them.
    pub closed spec fn parts(&self) -> (Source, Target) {
        (self.source, self.target)
    }

    pub fn new(source: Source, target: Target) -> (r: Self)
        ensures
            r.parts() == (source, target),
    {
        StrategyMigrationApplication { source, target }
    }
}


/// How many strategies, and how many legs they hold in all.
#[derive(Debug, Clone, Copy, PartialEq, Eq)]
pub struct StrategyCounts {
    pub strategies: u64,
    pub legs: u64,
}

/// The counts read from the archive, and those the target store reports afterwards.
#[derive(Debug, Clone, Copy, PartialEq, Eq)]
pub struct StrategyMigrationReport {
    pub source: StrategyCounts,
    pub target: StrategyCounts,
}

/// The report of a migration, from the number of legs of each archived strategy and the counts
/// of the target store; `None` where the legs add up beyond a `u64`.
pub fn strategy_report(legs_per_strategy: &Vec<u64>, target: StrategyCounts) -> (r: Option<
    StrategyMigrationReport,
>)
    ensures
        match r {
            Some(rep) => rep.source.strategies == legs_per_strategy@.len() && rep.source.legs
                == count_total(legs_per_strategy@) && rep.target == target,
            None => count_total(legs_per_strategy@) > u64::MAX,
        },
{
    match checked_total(legs_per_strategy) {
        Some(legs) => Some(
            StrategyMigrationReport {
                source: StrategyCounts { strategies: legs_per_strategy.len() as u64, legs },
                target,
            },
        ),
        None => None,
    }
}

} // verus!
