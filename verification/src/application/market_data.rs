//! Market-data use cases.

use vstd::prelude::*;
use crate::port::PortError;
use super::{checked_ticker, ticker_outcome};

verus! {

/// Serves stored histories and live prices of a ticker.
pub struct MarketDataApplication<MarketHistoryStore, IndexHistoryStore, LivePrices> {
    market_history_store: MarketHistoryStore,
    index_history_store: IndexHistoryStore,
    live_prices: LivePrices,
}

impl<MarketHistoryStore, IndexHistoryStore, LivePrices> MarketDataApplication<MarketHistoryStore, IndexHistoryStore, LivePrices> {
    /// The collaborators the use case was built with, in the order `new` takes them.
    pub closed spec fn parts(&self) -> (MarketHistoryStore, IndexHistoryStore, LivePrices) {
        (self.market_history_store, self.index_history_store, self.live_prices)
    }

    pub fn new(market_history_store: MarketHistoryStore, index_history_store: IndexHistoryStore, live_prices: LivePrices) -> (r: Self)
        ensures
            r.parts() == (market_history_store, index_history_store, live_prices),
    {
        MarketDataApplication { market_history_store, index_history_store, live_prices }
    }
}

/// The requested ticker, trimmed and upper-cased, of ASCII letters, digits and `^`.
pub fn normalized_ticker(ticker: &str) -> (r: Result<String, PortError>)
    ensures
        ticker_outcome(ticker@, "^"@, "ticker must contain only ASCII letters, digits, or '^'"@, r),
{
    checked_ticker(ticker, "^", "ticker must contain only ASCII letters, digits, or '^'")
}

} // verus!
