//! Moving archived tracked tickers into the current store.

use vstd::prelude::*;

verus! {

/// Copies every archived tracked ticker into the target store and reports the counts.
pub struct TrackedTickerMigrationApplication<Source, Target> {
    source: Source,
    target: Target,
}

impl<Source, Target> TrackedTickerMigrationApplication<Source, Target> {
    /// The collaborators the use case was built with, in the order `new` takes them.
    pub closed spec fn parts(&self) -> (Source, Target) {
        (self.source, self.target)
    }

    pub fn new(source: Source, target: Target) -> (r: Self)
        ensures
            r.parts() == (source, target),
    {
        TrackedTickerMigrationApplication { source, target }
    }
}

} // verus!
