//! Live price streaming use case.

use vstd::prelude::*;

verus! {

/// Forwards the live prices of the ticker a subscriber follows.
pub struct MarketStreamApplication<LivePriceStream> {
    live_price_stream: LivePriceStream,
}

impl<LivePriceStream> MarketStreamApplication<LivePriceStream> {
    /// The collaborator the use case was built with.
    pub closed spec fn parts(&self) -> LivePriceStream {
        self.live_price_stream
    }

    pub fn new(live_price_stream: LivePriceStream) -> (r: Self)
        ensures
            r.parts() == live_price_stream,
    {
        MarketStreamApplication { live_price_stream }
    }
}

} // verus!
