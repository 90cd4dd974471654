//! Scheduling decisions based on official market sessions.

use vstd::prelude::*;

verus! {

/// Minutes after a session close before its daily data is published.
pub const DAILY_DATA_DELAY_MINUTES: u32 = 20;

/// Answers scheduling questions from the trading calendar.
pub struct MarketSchedulingApplication<TradingCalendar> {
    trading_calendar: TradingCalendar,
}

impl<TradingCalendar> MarketSchedulingApplication<TradingCalendar> {
    /// The collaborator the use case was built with.
    pub closed spec fn parts(&self) -> TradingCalendar {
        self.trading_calendar
    }

    pub fn new(trading_calendar: TradingCalendar) -> (r: Self)
        ensures
            r.parts() == trading_calendar,
    {
        MarketSchedulingApplication { trading_calendar }
    }
}

} // verus!
