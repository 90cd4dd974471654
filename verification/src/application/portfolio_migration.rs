//! Moving archived portfolios into the current store.

use vstd::prelude::*;

use crate::application::{checked_total, count_total};
use crate::domain::portfolio::Portfolio;

verus! {

/// Copies every archived portfolio into the target store and reports the counts.
pub struct PortfolioMigrationApplication<Source, Target> {
    source: Source,
    target: Target,
}

impl<Source, Target> PortfolioMigrationApplication<Source, Target> {
    /// The collaborators the use case was built with, in the order `new` takes them.
    pub closed spec fn parts(&self) -> (Source, Target) {
        (self.source, self.target)
    }

    pub fn new(source: Source, target: Target) -> (r: Self)
        ensures
            r.parts() == (source, target),
    {
        PortfolioMigrationApplication { source, target }
    }
}


/// How many portfolios, and how many events they record in all.
#[derive(Debug, Clone, Copy, PartialEq, Eq)]
pub struct PortfolioCounts {
    pub portfolios: u64,
    pub events: u64,
}

/// The counts read from the archive, and those the target store reports afterwards.
#[derive(Debug, Clone, Copy, PartialEq, Eq)]
pub struct PortfolioMigrationReport {
    pub source: PortfolioCounts,
    pub target: PortfolioCounts,
}

/// The number of events each portfolio records.
pub open spec fn event_counts(portfolios: Seq<Portfolio>) -> Seq<u64> {
    portfolios.map_values(|p: Portfolio| p.event_log().len() as u64)
}

/// The report of a migration, from the archived portfolios and the counts of the target store;
/// `None` where the events add up beyond a `u64`.
pub fn portfolio_report(portfolios: &Vec<Portfolio>, target: PortfolioCounts) -> (r: Option<
    PortfolioMigrationReport,
>)
    ensures
        match r {
            Some(rep) => rep.source.portfolios == portfolios@.len() && rep.source.events
                == count_total(event_counts(portfolios@)) && rep.target == target,
            None => count_total(event_counts(portfolios@)) > u64::MAX,
        },
{
    let mut counts: Vec<u64> = Vec::new();
    let mut i: usize = 0;
    while i < portfolios.len()
        invariant
            i <= portfolios.len(),
            counts@ =~= event_counts(portfolios@).take(i as int),
        decreases portfolios.len() - i,
    {
        let n: usize = portfolios[i].events().len();
        counts.push(n as u64);
        i += 1;
    }
    assert(counts@ =~= event_counts(portfolios@));
    match checked_total(&counts) {
        Some(events) => Some(
            PortfolioMigrationReport {
                source: PortfolioCounts { portfolios: portfolios.len() as u64, events },
                target,
            },
        ),
        None => None,
    }
}

} // verus!
