use std::collections::HashSet;

use mercado::domain::sector_performance::{sectors, SectorPerformancePeriod};
use mercado::domain::tracked_ticker::{normalize_ticker, system_tickers, TrackedTickerSource};

#[test]
fn normalizes_supported_symbols() {
    assert_eq!(normalize_ticker(" brk.b ").unwrap(), "BRK.B");
    assert_eq!(normalize_ticker("^spx").unwrap(), "^SPX");
}

#[test]
fn rejects_invalid_symbols() {
    for ticker in ["", " ", "SP Y", "SPY/US", "ABCDEFGHIJKLMNOP"] {
        assert_eq!(normalize_ticker(ticker), Err("invalid tracked ticker".to_string()));
    }
}

#[test]
fn mandatory_catalog_contains_benchmark_volatility_and_sectors() {
    let tickers = system_tickers();
    assert_eq!(tickers.len(), 14);
    assert!(tickers.iter().all(|ticker| ticker.source == TrackedTickerSource::System));
    assert!(tickers.iter().all(|ticker| ticker.active));
    assert!(sectors()
        .iter()
        .all(|sector| tickers.iter().any(|ticker| ticker.ticker == sector.etf)));
}

#[test]
fn catalog_has_exactly_the_eleven_sp_500_sector_etfs_without_duplicates() {
    let catalog = sectors();
    assert_eq!(catalog.len(), 11);
    assert_eq!(
        catalog.map(|sector| sector.etf),
        ["XLK", "XLF", "XLE", "XLI", "XLV", "XLY", "XLC", "XLP", "XLB", "XLU", "XLRE"]
    );
    assert_eq!(catalog.iter().map(|sector| sector.etf).collect::<HashSet<_>>().len(), 11);
}

#[test]
fn periods_have_trading_session_semantics() {
    assert_eq!(SectorPerformancePeriod::OneWeek.sessions(), 5);
    assert_eq!(SectorPerformancePeriod::TwoWeeks.sessions(), 10);
    assert_eq!(SectorPerformancePeriod::OneMonth.sessions(), 21);
}

#[test]
fn normalized_tickers_normalize_to_themselves() {
    for ticker in [" brk.b ", "^spx", "xlre", "SPY"] {
        let once = normalize_ticker(ticker).unwrap();
        assert_eq!(normalize_ticker(&once).unwrap(), once);
    }
}

#[test]
fn system_catalog_follows_the_indices_the_benchmark_and_the_sectors_in_order() {
    let tickers = system_tickers();
    let names: Vec<&str> = tickers.iter().map(|ticker| ticker.ticker.as_str()).collect();
    assert_eq!(&names[..3], &["SPX", "VIX", "SPY"]);
    let vix = &tickers[1];
    assert!(!vix.historical_prices);
    assert!(!vix.option_snapshots);
    assert!(tickers[0].option_snapshots && tickers[2].option_snapshots);
    assert!(!tickers[3].option_snapshots);
}
