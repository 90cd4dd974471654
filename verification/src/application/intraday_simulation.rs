//! Preparing intraday strategy simulations.

use vstd::prelude::*;
use crate::port::PortError;
use super::{checked_ticker, ticker_outcome};

verus! {

/// Prepares a simulation from the live chain and price of a ticker.
pub struct IntradaySimulationApplication<OptionChains, LivePrices, TradingCalendar> {
    option_chains: OptionChains,
    live_prices: LivePrices,
    trading_calendar: TradingCalendar,
}

impl<OptionChains, LivePrices, TradingCalendar> IntradaySimulationApplication<OptionChains, LivePrices, TradingCalendar> {
    /// The collaborators the use case was built with, in the order `new` takes them.
    pub closed spec fn parts(&self) -> (OptionChains, LivePrices, TradingCalendar) {
        (self.option_chains, self.live_prices, self.trading_calendar)
    }

    pub fn new(option_chains: OptionChains, live_prices: LivePrices, trading_calendar: TradingCalendar) -> (r: Self)
        ensures
            r.parts() == (option_chains, live_prices, trading_calendar),
    {
        IntradaySimulationApplication { option_chains, live_prices, trading_calendar }
    }
}

/// The requested ticker, trimmed and upper-cased, of ASCII letters, digits, `.` and `-`.
pub fn normalized_ticker(ticker: &str) -> (r: Result<String, PortError>)
    ensures
        ticker_outcome(ticker@, ".-"@, "invalid ticker"@, r),
{
    checked_ticker(ticker, ".-", "invalid ticker")
}

} // verus!
