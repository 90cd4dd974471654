//! Volatility use cases.

use vstd::prelude::*;
use vstd::string::*;
use crate::port::PortError;
use crate::text::same_text;
use super::{checked_ticker, ticker_outcome};

verus! {

/// Serves volatility indices, term structures and historical volatility.
pub struct MarketVolatilityApplication<IndexHistoryStore, OptionDataStore, MarketHistoryStore> {
    index_history_store: IndexHistoryStore,
    option_data_store: OptionDataStore,
    market_history_store: MarketHistoryStore,
}

impl<IndexHistoryStore, OptionDataStore, MarketHistoryStore> MarketVolatilityApplication<IndexHistoryStore, OptionDataStore, MarketHistoryStore> {
    /// The collaborators the use case was built with, in the order `new` takes them.
    pub closed spec fn parts(&self) -> (IndexHistoryStore, OptionDataStore, MarketHistoryStore) {
        (self.index_history_store, self.option_data_store, self.market_history_store)
    }

    pub fn new(index_history_store: IndexHistoryStore, option_data_store: OptionDataStore, market_history_store: MarketHistoryStore) -> (r: Self)
        ensures
            r.parts() == (index_history_store, option_data_store, market_history_store),
    {
        MarketVolatilityApplication { index_history_store, option_data_store, market_history_store }
    }
}

/// A request for the historical volatility of a ticker over several horizons.
#[derive(Debug, Clone, PartialEq, Eq)]
pub struct HistoricalVolatilityRequest {
    pub ticker: String,
    pub horizons_sessions: Vec<usize>,
    pub series_limit: usize,
}

/// Whether two horizons repeat.
pub open spec fn has_duplicates(h: Seq<usize>) -> bool {
    exists|i: int, j: int| 0 <= i < j < h.len() && #[trigger] h[i] == #[trigger] h[j]
}

/// The refusal of a historical-volatility request, if any: 1 to 6 horizons, each of 2 to
/// 252 sessions, none repeated, and a series limit of 1 to 1260.
pub open spec fn volatility_request_refusal(h: Seq<usize>, limit: usize) -> Option<Seq<char>> {
    if h.len() == 0 || h.len() > 6 {
        Some("horizons must contain between 1 and 6 values"@)
    } else if exists|i: int| 0 <= i < h.len() && !(2 <= #[trigger] h[i] <= 252) {
        Some("each horizon must be between 2 and 252"@)
    } else if has_duplicates(h) {
        Some("horizons must not contain duplicates"@)
    } else if limit == 0 || limit > 1_260 {
        Some("limit must be between 1 and 1260"@)
    } else {
        None
    }
}

pub fn validate_historical_volatility_request(request: &HistoricalVolatilityRequest) -> (r: Result<(), PortError>)
    ensures
        match volatility_request_refusal(request.horizons_sessions@, request.series_limit) {
            None => r is Ok,
            Some(message) => r matches Err(PortError::InvalidRequest(m)) && m@ == message,
        },
{
    let h = &request.horizons_sessions;
    if h.len() == 0 || h.len() > 6 {
        return Err(PortError::InvalidRequest(String::from_str("horizons must contain between 1 and 6 values")));
    }
    for i in 0..h.len()
        invariant
            h@ == request.horizons_sessions@,
            0 < h@.len() <= 6,
            forall|k: int| 0 <= k < i ==> 2 <= #[trigger] h@[k] <= 252,
    {
        if !(2 <= h[i] && h[i] <= 252) {
            proof {
                assert(!(2 <= h@[i as int] <= 252));
            }
            return Err(PortError::InvalidRequest(String::from_str("each horizon must be between 2 and 252")));
        }
    }
    for i in 0..h.len()
        invariant
            h@ == request.horizons_sessions@,
            0 < h@.len() <= 6,
            forall|k: int| 0 <= k < h@.len() ==> 2 <= #[trigger] h@[k] <= 252,
            forall|a: int, b: int| 0 <= a < b < h@.len() && a < i ==> #[trigger] h@[a] != #[trigger] h@[b],
    {
        for j in i + 1..h.len()
            invariant
                h@ == request.horizons_sessions@,
                0 < h@.len() <= 6,
                forall|k: int| 0 <= k < h@.len() ==> 2 <= #[trigger] h@[k] <= 252,
                i < h@.len(),
                forall|a: int, b: int| 0 <= a < b < h@.len() && a < i ==> #[trigger] h@[a] != #[trigger] h@[b],
                forall|b: int| i < b < j ==> h@[i as int] != #[trigger] h@[b],
        {
            if h[i] == h[j] {
                proof {
                    assert(h@[i as int] == h@[j as int]);
                }
                return Err(PortError::InvalidRequest(String::from_str("horizons must not contain duplicates")));
            }
        }
    }
    if request.series_limit == 0 || request.series_limit > 1_260 {
        return Err(PortError::InvalidRequest(String::from_str("limit must be between 1 and 1260")));
    }
    Ok(())
}

/// The requested ticker, trimmed and upper-cased, of ASCII letters, digits, `.` and `-`.
pub fn normalized_ticker(ticker: &str) -> (r: Result<String, PortError>)
    ensures
        ticker_outcome(ticker@, ".-"@, "invalid ticker"@, r),
{
    checked_ticker(ticker, ".-", "invalid ticker")
}

/// The volatility index that tracks a ticker's implied volatility, where there is one.
pub open spec fn spec_implied_volatility_index(ticker: Seq<char>) -> Option<Seq<char>> {
    if ticker == "AAPL"@ {
        Some("VXAPL"@)
    } else if ticker == "GOOGL"@ {
        Some("VXGOG"@)
    } else if ticker == "IBM"@ {
        Some("VXIBM"@)
    } else if ticker == "SPX"@ {
        Some("VIX"@)
    } else {
        None
    }
}

pub fn implied_volatility_index(ticker: &str) -> (r: Option<&'static str>)
    ensures
        match r {
            Some(s) => spec_implied_volatility_index(ticker@) == Some(s@),
            None => spec_implied_volatility_index(ticker@) is None,
        },
{
    if same_text(ticker, "AAPL") {
        Some("VXAPL")
    } else if same_text(ticker, "GOOGL") {
        Some("VXGOG")
    } else if same_text(ticker, "IBM") {
        Some("VXIBM")
    } else if same_text(ticker, "SPX") {
        Some("VIX")
    } else {
        None
    }
}

} // verus!
