//! Moving archived market histories into the current store.

use vstd::prelude::*;

use crate::application::{checked_total, count_total};

verus! {

/// Copies every archived market history into the target store and reports the counts.
pub struct MarketHistoryMigrationApplication<Source, Target> {
    source: Source,
    target: Target,
}

impl<Source, Target> MarketHistoryMigrationApplication<Source, Target> {
    /// The collaborators the use case was built with, in the order `new` takes them.
    pub closed spec fn parts(&self) -> (Source, Target) {
        (self.source, self.target)
    }

    pub fn new(source: Source, target: Target) -> (r: Self)
        ensures
            r.parts() == (source, target),
    {
        MarketHistoryMigrationApplication { source, target }
    }
}


/// Daily prices, dividends and splits, counted.
#[derive(Debug, Clone, Copy, PartialEq, Eq)]
pub struct MarketHistoryCounts {
    pub prices: u64,
    pub dividends: u64,
    pub splits: u64,
}

/// How many histories were read, what they held, and what the target store counts afterwards.
#[derive(Debug, Clone, Copy, PartialEq, Eq)]
pub struct MarketHistoryMigrationReport {
    pub histories: u64,
    pub source: MarketHistoryCounts,
    pub target: MarketHistoryCounts,
}

pub open spec fn prices_of(counts: Seq<MarketHistoryCounts>) -> Seq<u64> {
    counts.map_values(|c: MarketHistoryCounts| c.prices)
}

pub open spec fn dividends_of(counts: Seq<MarketHistoryCounts>) -> Seq<u64> {
    counts.map_values(|c: MarketHistoryCounts| c.dividends)
}

pub open spec fn splits_of(counts: Seq<MarketHistoryCounts>) -> Seq<u64> {
    counts.map_values(|c: MarketHistoryCounts| c.splits)
}

/// The report of a migration, from the counts of each archived history and those of the target
/// store; `None` where the prices, the dividends or the splits add up beyond a `u64`.
pub fn market_history_report(
    per_history: &Vec<MarketHistoryCounts>,
    target: MarketHistoryCounts,
) -> (r: Option<MarketHistoryMigrationReport>)
    ensures
        match r {
            Some(rep) => rep.histories == per_history@.len() && rep.source.prices == count_total(
                prices_of(per_history@),
            ) && rep.source.dividends == count_total(dividends_of(per_history@))
                && rep.source.splits == count_total(splits_of(per_history@)) && rep.target
                == target,
            None => count_total(prices_of(per_history@)) > u64::MAX || count_total(
                dividends_of(per_history@),
            ) > u64::MAX || count_total(splits_of(per_history@)) > u64::MAX,
        },
{
    let mut prices: Vec<u64> = Vec::new();
    let mut dividends: Vec<u64> = Vec::new();
    let mut splits: Vec<u64> = Vec::new();
    let mut i: usize = 0;
    while i < per_history.len()
        invariant
            i <= per_history.len(),
            prices@ =~= prices_of(per_history@).take(i as int),
            dividends@ =~= dividends_of(per_history@).take(i as int),
            splits@ =~= splits_of(per_history@).take(i as int),
        decreases per_history.len() - i,
    {
        prices.push(per_history[i].prices);
        dividends.push(per_history[i].dividends);
        splits.push(per_history[i].splits);
        i += 1;
    }
    assert(prices@ =~= prices_of(per_history@));
    assert(dividends@ =~= dividends_of(per_history@));
    assert(splits@ =~= splits_of(per_history@));
    let p: u64 = match checked_total(&prices) {
        Some(t) => t,
        None => return None,
    };
    let d: u64 = match checked_total(&dividends) {
        Some(t) => t,
        None => return None,
    };
    let s: u64 = match checked_total(&splits) {
        Some(t) => t,
        None => return None,
    };
    Some(
        MarketHistoryMigrationReport {
            histories: per_history.len() as u64,
            source: MarketHistoryCounts { prices: p, dividends: d, splits: s },
            target,
        },
    )
}

} // verus!
