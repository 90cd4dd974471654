//! Option-chain analysis use cases.

use vstd::prelude::*;
use crate::port::PortError;
use super::{checked_ticker, ticker_outcome};

verus! {

/// Analyses the option chains of a ticker.
pub struct OptionsApplication<OptionChains, OptionDataStore, YieldCurves, TradingCalendar> {
    option_chains: OptionChains,
    option_data_store: OptionDataStore,
    yield_curves: YieldCurves,
    trading_calendar: TradingCalendar,
}

impl<OptionChains, OptionDataStore, YieldCurves, TradingCalendar> OptionsApplication<OptionChains, OptionDataStore, YieldCurves, TradingCalendar> {
    /// The collaborators the use case was built with, in the order `new` takes them.
    pub closed spec fn parts(&self) -> (OptionChains, OptionDataStore, YieldCurves, TradingCalendar) {
        (self.option_chains, self.option_data_store, self.yield_curves, self.trading_calendar)
    }

    pub fn new(option_chains: OptionChains, option_data_store: OptionDataStore, yield_curves: YieldCurves, trading_calendar: TradingCalendar) -> (r: Self)
        ensures
            r.parts() == (option_chains, option_data_store, yield_curves, trading_calendar),
    {
        OptionsApplication { option_chains, option_data_store, yield_curves, trading_calendar }
    }
}

/// The requested ticker, trimmed and upper-cased, of ASCII letters, digits and `^`.
pub fn normalized_ticker(ticker: &str) -> (r: Result<String, PortError>)
    ensures
        ticker_outcome(ticker@, "^"@, "ticker must contain only ASCII letters, digits, or '^'"@, r),
{
    checked_ticker(ticker, "^", "ticker must contain only ASCII letters, digits, or '^'")
}

} // verus!
