pub mod sector_performance;
pub mod tracked_ticker;
pub mod portfolio;
pub mod options;
pub mod option_volatility;
pub mod gamma_exposure;
pub mod data_refresh;
pub mod simulation;
pub mod historical_volatility;
pub mod interest_rates;
pub mod saved_strategy;
pub mod portfolio_laws;
