//! Valuing portfolio positions at market prices.

use vstd::prelude::*;
use vstd::string::*;

use crate::domain::portfolio::Instrument;
use crate::text::{eq_ignore_ascii_case, same_ignoring_ascii_case};

verus! {

/// The sources a position is priced from.
pub struct PricingCollaborators<Calendar, LivePrices, MarketHistory, LiveOptions, StoredOptions> {
    calendar: Calendar,
    live_prices: LivePrices,
    market_history: MarketHistory,
    live_options: LiveOptions,
    stored_options: StoredOptions,
}

impl<Calendar, LivePrices, MarketHistory, LiveOptions, StoredOptions> PricingCollaborators<Calendar, LivePrices, MarketHistory, LiveOptions, StoredOptions> {
    /// The collaborators the use case was built with, in the order `new` takes them.
    pub closed spec fn parts(&self) -> (Calendar, LivePrices, MarketHistory, LiveOptions, StoredOptions) {
        (self.calendar, self.live_prices, self.market_history, self.live_options, self.stored_options)
    }

    pub fn new(calendar: Calendar, live_prices: LivePrices, market_history: MarketHistory, live_options: LiveOptions, stored_options: StoredOptions) -> (r: Self)
        ensures
            r.parts() == (calendar, live_prices, market_history, live_options, stored_options),
    {
        PricingCollaborators { calendar, live_prices, market_history, live_options, stored_options }
    }
}

/// Values the positions of a stored portfolio.
pub struct PortfolioValuationApplication<PortfolioLoader, Pricing> {
    portfolio_loader: PortfolioLoader,
    pricing: Pricing,
}

impl<PortfolioLoader, Pricing> PortfolioValuationApplication<PortfolioLoader, Pricing> {
    /// The collaborators the use case was built with, in the order `new` takes them.
    pub closed spec fn parts(&self) -> (PortfolioLoader, Pricing) {
        (self.portfolio_loader, self.pricing)
    }

    pub fn new(portfolio_loader: PortfolioLoader, pricing: Pricing) -> (r: Self)
        ensures
            r.parts() == (portfolio_loader, pricing),
    {
        PortfolioValuationApplication { portfolio_loader, pricing }
    }
}

/// Where the price of a position comes from.
#[derive(Debug, Clone, Copy, PartialEq, Eq, Structural)]
pub enum PriceSource {
    /// The live quote of an equity, during the regular session.
    LiveMarketPrice,
    /// The last close of an equity's daily history, outside the regular session.
    EndOfDayMarketPrice,
    /// The mid of the option in the live chain, during the regular session.
    LiveOptionChain,
    /// The mid of the option in the stored chain, outside the regular session.
    StoredOptionSnapshot,
}

/// The source a position is priced from: live quotes and chains during the
/// regular session, stored histories and snapshots outside it.
pub fn price_source(instrument: &Instrument, regular_session: bool) -> (r: PriceSource)
    ensures
        r == match (instrument, regular_session) {
            (Instrument::Equity { .. }, true) => PriceSource::LiveMarketPrice,
            (Instrument::Equity { .. }, false) => PriceSource::EndOfDayMarketPrice,
            (Instrument::Option { .. }, true) => PriceSource::LiveOptionChain,
            (Instrument::Option { .. }, false) => PriceSource::StoredOptionSnapshot,
        },
{
    match instrument {
        Instrument::Equity { .. } => if regular_session {
            PriceSource::LiveMarketPrice
        } else {
            PriceSource::EndOfDayMarketPrice
        },
        Instrument::Option { .. } => if regular_session {
            PriceSource::LiveOptionChain
        } else {
            PriceSource::StoredOptionSnapshot
        },
    }
}

impl PriceSource {
    /// The text a valued position names its price's source with.
    pub fn label(&self) -> (r: &'static str)
        ensures
            r@ == match self {
                PriceSource::LiveMarketPrice => "live market price"@,
                PriceSource::EndOfDayMarketPrice => "end-of-day market price"@,
                PriceSource::LiveOptionChain => "live option chain"@,
                PriceSource::StoredOptionSnapshot => "stored option snapshot"@,
            },
    {
        match self {
            PriceSource::LiveMarketPrice => "live market price",
            PriceSource::EndOfDayMarketPrice => "end-of-day market price",
            PriceSource::LiveOptionChain => "live option chain",
            PriceSource::StoredOptionSnapshot => "stored option snapshot",
        }
    }
}

/// The underlying whose chain quotes an option of the root: weekly `SPXW` options
/// (in any ASCII case) are quoted in the `SPX` chain, every other root in its own.
pub fn option_chain_ticker(root: &str) -> (r: String)
    ensures
        r@ == if eq_ignore_ascii_case(root@, "SPXW"@) {
            "SPX"@
        } else {
            root@
        },
{
    if same_ignoring_ascii_case(root, "SPXW") {
        String::from_str("SPX")
    } else {
        root.to_owned()
    }
}

} // verus!
