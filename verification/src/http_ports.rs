//! The collaborators that the HTTP interface is assembled from, grouped by the
//! routes that use them.

use vstd::prelude::*;

verus! {

/// The use cases behind the market routes.
pub struct MarketViewingPorts<MarketData, SectorPerformance> {
    market_data: MarketData,
    sector_performance: SectorPerformance,
}

impl<MarketData, SectorPerformance> MarketViewingPorts<MarketData, SectorPerformance> {
    /// The collaborators the group was built with, in the order `new` takes them.
    pub closed spec fn parts(&self) -> (MarketData, SectorPerformance) {
        (self.market_data, self.sector_performance)
    }

    pub fn new(market_data: MarketData, sector_performance: SectorPerformance) -> (r: Self)
        ensures
            r.parts() == (market_data, sector_performance),
    {
        MarketViewingPorts { market_data, sector_performance }
    }
}

/// The use cases behind the option-chain and gamma-exposure routes.
pub struct OptionsViewingPorts<Options, GammaExposure> {
    options: Options,
    gamma_exposure: GammaExposure,
}

impl<Options, GammaExposure> OptionsViewingPorts<Options, GammaExposure> {
    /// The collaborators the group was built with, in the order `new` takes them.
    pub closed spec fn parts(&self) -> (Options, GammaExposure) {
        (self.options, self.gamma_exposure)
    }

    pub fn new(options: Options, gamma_exposure: GammaExposure) -> (r: Self)
        ensures
            r.parts() == (options, gamma_exposure),
    {
        OptionsViewingPorts { options, gamma_exposure }
    }
}

/// The use cases behind the synchronization and data-refresh routes. A group
/// built by `new` always has a data-refresh use case.
pub struct SynchronizationPorts<Synchronization, DataRefresh> {
    synchronization: Synchronization,
    data_refresh: Option<DataRefresh>,
}

impl<Synchronization, DataRefresh> SynchronizationPorts<Synchronization, DataRefresh> {
    /// The synchronization use case and, where there is one, the data-refresh use case.
    pub closed spec fn parts(&self) -> (Synchronization, Option<DataRefresh>) {
        (self.synchronization, self.data_refresh)
    }

    pub fn new(synchronization: Synchronization, data_refresh: DataRefresh) -> (r: Self)
        ensures
            r.parts() == (synchronization, Some(data_refresh)),
    {
        SynchronizationPorts { synchronization, data_refresh: Some(data_refresh) }
    }
}

/// The use cases behind the tracked-ticker routes.
pub struct TrackedTickerPorts<Management, Resolution> {
    management: Management,
    resolution: Resolution,
}

impl<Management, Resolution> TrackedTickerPorts<Management, Resolution> {
    /// The collaborators the group was built with, in the order `new` takes them.
    pub closed spec fn parts(&self) -> (Management, Resolution) {
        (self.management, self.resolution)
    }

    pub fn new(management: Management, resolution: Resolution) -> (r: Self)
        ensures
            r.parts() == (management, resolution),
    {
        TrackedTickerPorts { management, resolution }
    }
}

/// The use cases behind the older, page-oriented routes.
#[derive(Clone)]
pub struct LegacyHttpPorts<
    MarketData,
    MarketStream,
    MarketVolatility,
    InterestRates,
    Portfolios,
    PortfolioValuation,
    Options,
    Simulation,
    IntradaySimulation,
    IntradayOptions,
    SavedStrategies,
    TrackedTickers,
> {
    pub market_data: MarketData,
    pub market_stream: MarketStream,
    pub market_volatility: MarketVolatility,
    pub interest_rates: InterestRates,
    pub portfolios: Portfolios,
    pub portfolio_valuation: PortfolioValuation,
    pub options: Options,
    pub simulation: Simulation,
    pub intraday_simulation: IntradaySimulation,
    pub intraday_options: IntradayOptions,
    pub saved_strategies: SavedStrategies,
    pub tracked_tickers: TrackedTickers,
}

} // verus!
