//! Verified core of a market-data, options and portfolio service.

pub mod decimal;
pub mod domain;
pub mod port;
pub mod text;
pub mod time;
pub mod views;
pub mod scheduler;
pub mod application;
pub mod yahoo;
pub mod http_ports;
pub mod live_prices;
