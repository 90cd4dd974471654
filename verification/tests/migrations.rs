use mercado::application::checked_total;
use mercado::application::index_history_migration::index_history_report;
use mercado::application::market_history_migration::{market_history_report, MarketHistoryCounts};
use mercado::application::option_chain_migration::{option_chain_report, ArchivedChainShape};
use mercado::application::portfolio_migration::{portfolio_report, PortfolioCounts};
use mercado::application::strategy_migration::{strategy_report, StrategyCounts};
use mercado::application::volatility_term_structure_migration::term_structure_report;
use mercado::decimal::decimal;
use mercado::domain::portfolio::{CashMovement, CashMovementKind, Currency, Money, Portfolio, PortfolioEvent};
use mercado::time::UtcInstant;

#[test]
fn totals_add_every_count_and_refuse_an_overflow() {
    assert_eq!(checked_total(&vec![]), Some(0));
    assert_eq!(checked_total(&vec![3, 0, 4]), Some(7));
    assert_eq!(checked_total(&vec![u64::MAX, 1]), None);
    assert_eq!(checked_total(&vec![u64::MAX, 0]), Some(u64::MAX));
}

#[test]
fn strategy_migration_counts_strategies_and_their_legs() {
    let target = StrategyCounts { strategies: 2, legs: 5 };
    let report = strategy_report(&vec![2, 3], target).unwrap();
    assert_eq!(report.source, StrategyCounts { strategies: 2, legs: 5 });
    assert_eq!(report.target, target);
    assert_eq!(strategy_report(&vec![], target).unwrap().source, StrategyCounts { strategies: 0, legs: 0 });
    assert_eq!(strategy_report(&vec![u64::MAX, 1], target), None);
}

#[test]
fn index_and_term_structure_migrations_count_their_rows() {
    let report = index_history_report(&vec![250, 251], 400).unwrap();
    assert_eq!((report.indices, report.source_rows, report.target_rows), (2, 501, 400));
    let report = term_structure_report(&vec![8, 0, 12], 20).unwrap();
    assert_eq!((report.structures, report.source_points, report.target_points), (3, 20, 20));
}

#[test]
fn market_history_migration_counts_each_kind_apart() {
    let per_history = vec![
        MarketHistoryCounts { prices: 10, dividends: 1, splits: 0 },
        MarketHistoryCounts { prices: 5, dividends: 2, splits: 1 },
    ];
    let target = MarketHistoryCounts { prices: 15, dividends: 3, splits: 1 };
    let report = market_history_report(&per_history, target).unwrap();
    assert_eq!(report.histories, 2);
    assert_eq!(report.source, MarketHistoryCounts { prices: 15, dividends: 3, splits: 1 });
    assert_eq!(report.target, target);
    let overflowing = vec![
        MarketHistoryCounts { prices: 1, dividends: u64::MAX, splits: 0 },
        MarketHistoryCounts { prices: 1, dividends: 1, splits: 0 },
    ];
    assert_eq!(market_history_report(&overflowing, target), None);
}

#[test]
fn option_chain_migration_counts_chains_without_a_market_close_as_skipped() {
    let archive = vec![
        ArchivedChainShape { contracts: 40, has_market_close: true },
        ArchivedChainShape { contracts: 12, has_market_close: false },
        ArchivedChainShape { contracts: 8, has_market_close: true },
    ];
    let report = option_chain_report(&archive, &vec![1, 0], 7, 300).unwrap();
    assert_eq!(report.source_snapshots, 3);
    assert_eq!(report.source_contracts, 60);
    assert_eq!(report.inserted_snapshots, 1);
    assert_eq!(report.skipped_without_market_close, 1);
    assert_eq!((report.target_snapshots, report.target_contracts), (7, 300));
    assert_eq!(option_chain_report(&archive, &vec![u64::MAX, 1], 7, 300), None);
}

#[test]
fn portfolio_migration_counts_portfolios_and_their_events() {
    let mut first = Portfolio::new("a".to_string(), "A".to_string(), Currency::eur()).unwrap();
    for id in ["deposit-1", "deposit-2"] {
        let deposit = CashMovement::new(
            id.to_string(),
            UtcInstant { micros: 0 },
            CashMovementKind::Deposit,
            Money::new(decimal("100").unwrap(), Currency::eur()),
        )
        .unwrap();
        first.record(PortfolioEvent::CashMovement(deposit)).unwrap();
    }
    let second = Portfolio::new("b".to_string(), "B".to_string(), Currency::eur()).unwrap();
    let portfolios = vec![first, second];
    let target = PortfolioCounts { portfolios: 2, events: 2 };
    let report = portfolio_report(&portfolios, target).unwrap();
    assert_eq!(report.source, PortfolioCounts { portfolios: 2, events: 2 });
    assert_eq!(report.target, target);
}
