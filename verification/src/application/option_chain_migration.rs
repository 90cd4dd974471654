//! Moving archived option chains into the current store.

use vstd::prelude::*;

use crate::application::{checked_total, count_total};

verus! {

/// Copies every archived option chain into the target store and reports the counts.
pub struct OptionChainMigrationApplication<Source, Target> {
    source: Source,
    target: Target,
}

impl<Source, Target> OptionChainMigrationApplication<Source, Target> {
    /// The collaborators the use case was built with, in the order `new` takes them.
    pub closed spec fn parts(&self) -> (Source, Target) {
        (self.source, self.target)
    }

    pub fn new(source: Source, target: Target) -> (r: Self)
        ensures
            r.parts() == (source, target),
    {
        OptionChainMigrationApplication { source, target }
    }
}


/// What the migration reads of an archived option chain: how many contracts it holds, and
/// whether the session close it belongs to is known.
#[derive(Debug, Clone, Copy, PartialEq, Eq)]
pub struct ArchivedChainShape {
    pub contracts: u64,
    pub has_market_close: bool,
}

/// What was read, what was stored or passed over, and what the target store counts afterwards.
#[derive(Debug, Clone, Copy, PartialEq, Eq)]
pub struct OptionChainMigrationReport {
    pub source_snapshots: u64,
    pub source_contracts: u64,
    pub inserted_snapshots: u64,
    pub skipped_without_market_close: u64,
    pub target_snapshots: u64,
    pub target_contracts: u64,
}

pub open spec fn contracts_of(archive: Seq<ArchivedChainShape>) -> Seq<u64> {
    archive.map_values(|c: ArchivedChainShape| c.contracts)
}

/// How many archived chains have no known session close.
pub open spec fn without_market_close(archive: Seq<ArchivedChainShape>) -> int
    decreases archive.len(),
{
    if archive.len() == 0 {
        0
    } else {
        without_market_close(archive.drop_last()) + if archive.last().has_market_close {
            0int
        } else {
            1int
        }
    }
}

/// The report of a migration, from the archived chains, the number of snapshots each store
/// call inserted (one call per chain with a known close), and the counts of the target store;
/// `None` where the contracts or the insertions add up beyond a `u64`.
pub fn option_chain_report(
    archive: &Vec<ArchivedChainShape>,
    inserted: &Vec<u64>,
    target_snapshots: u64,
    target_contracts: u64,
) -> (r: Option<OptionChainMigrationReport>)
    ensures
        match r {
            Some(rep) => rep.source_snapshots == archive@.len() && rep.source_contracts
                == count_total(contracts_of(archive@)) && rep.inserted_snapshots == count_total(
                inserted@,
            ) && rep.skipped_without_market_close == without_market_close(archive@)
                && rep.target_snapshots == target_snapshots && rep.target_contracts
                == target_contracts,
            None => count_total(contracts_of(archive@)) > u64::MAX || count_total(inserted@)
                > u64::MAX,
        },
{
    let mut contracts: Vec<u64> = Vec::new();
    let mut skipped: u64 = 0;
    let mut i: usize = 0;
    while i < archive.len()
        invariant
            i <= archive.len(),
            contracts@ =~= contracts_of(archive@).take(i as int),
            skipped == without_market_close(archive@.take(i as int)),
            skipped <= i,
        decreases archive.len() - i,
    {
        assert(archive@.take(i as int + 1).drop_last() =~= archive@.take(i as int));
        contracts.push(archive[i].contracts);
        if !archive[i].has_market_close {
            skipped = skipped + 1;
        }
        i += 1;
    }
    assert(contracts@ =~= contracts_of(archive@));
    assert(archive@.take(i as int) =~= archive@);
    let source_contracts: u64 = match checked_total(&contracts) {
        Some(t) => t,
        None => return None,
    };
    let inserted_snapshots: u64 = match checked_total(inserted) {
        Some(t) => t,
        None => return None,
    };
    Some(
        OptionChainMigrationReport {
            source_snapshots: archive.len() as u64,
            source_contracts,
            inserted_snapshots,
            skipped_without_market_close: skipped,
            target_snapshots,
            target_contracts,
        },
    )
}

} // verus!
