//! Interest-rate use cases.

use vstd::prelude::*;

verus! {

/// Serves yield curves and interpolated interest rates from the stored curves.
pub struct InterestRatesApplication<YieldCurveStore> {
    yield_curve_store: YieldCurveStore,
}

impl<YieldCurveStore> InterestRatesApplication<YieldCurveStore> {
    /// The collaborator the use case was built with.
    pub closed spec fn parts(&self) -> YieldCurveStore {
        self.yield_curve_store
    }

    pub fn new(yield_curve_store: YieldCurveStore) -> (r: Self)
        ensures
            r.parts() == yield_curve_store,
    {
        InterestRatesApplication { yield_curve_store }
    }
}

} // verus!
