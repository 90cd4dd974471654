use mercado::application::data_refresh::{
    already_running, check_recent_limit, failure, latest_is_running, not_before, origin_for, origin_name,
    retry_attempt, run_id, DataRefreshTrigger, MarketHistoryBackfillPolicy, QuoteDay, RefreshTally,
    StartDataRefreshResult,
};
use mercado::application::gamma_exposure::{check_profile_points, minutes_until, GammaExposureApplication};
use mercado::application::sector_performance::{trailing_window, window_between};
use mercado::application::portfolio_valuation::{option_chain_ticker, price_source, PriceSource};
use mercado::domain::portfolio::Instrument;
use mercado::application::market_data::MarketDataApplication;
use mercado::application::market_volatility::{
    implied_volatility_index, normalized_ticker as volatility_ticker, validate_historical_volatility_request,
    HistoricalVolatilityRequest,
};
use mercado::application::options::normalized_ticker as options_ticker;
use mercado::application::portfolio::{portfolio_already_exists, portfolio_not_found, refused_change};
use mercado::application::saved_strategies::{check_strategy_id, strategy_name, strategy_not_found, strategy_ticker};
use mercado::application::simulation::invalid_simulation;
use mercado::application::synchronization::{
    normalized_ticker as synchronization_ticker, SynchronizationAction, SynchronizationFailure, SynchronizationReport,
    TrackedTickersSynchronization, TrackedTickersSynchronizationReport,
};
use mercado::application::data_refresh::RefreshTicker;
use mercado::application::tracked_tickers::{
    apply_configuration, bootstrap_entry, map_resolution_error, needs_resolution, protected_configuration,
};
use mercado::domain::data_refresh::{DataRefreshOrigin, DataRefreshRun, DataRefreshState};
use mercado::domain::portfolio::PortfolioError;
use mercado::domain::simulation::SimulationError;
use mercado::domain::tracked_ticker::{
    system_tickers, TrackedTicker, TrackedTickerConfiguration, UnderlyingMetadata, UnderlyingResolutionState,
};
use mercado::port::{PortError, UnderlyingResolutionError};
use mercado::scheduler::EndOfDayReport;
use mercado::time::{distinct_days, CalendarDate, UtcInstant};

fn invalid(message: &str) -> PortError {
    PortError::InvalidRequest(message.to_string())
}

#[test]
fn tickers_are_checked_against_each_use_case_alphabet() {
    assert_eq!(options_ticker(" ^spx ").unwrap(), "^SPX");
    assert_eq!(options_ticker("brk.b"), Err(invalid("ticker must contain only ASCII letters, digits, or '^'")));
    assert_eq!(volatility_ticker(" brk.b ").unwrap(), "BRK.B");
    assert_eq!(volatility_ticker("^VIX"), Err(invalid("invalid ticker")));
    assert_eq!(volatility_ticker("   "), Err(invalid("invalid ticker")));
    assert_eq!(synchronization_ticker(" a b "), Ok("A B".to_string()));
    assert_eq!(synchronization_ticker("  "), Err(invalid("ticker must not be empty")));
    assert_eq!(mercado::application::gamma_exposure::normalized_ticker("spx").unwrap(), "SPX");
    assert_eq!(mercado::application::intraday_simulation::normalized_ticker("brk-b").unwrap(), "BRK-B");
    assert_eq!(mercado::application::market_data::normalized_ticker("x y"), Err(invalid("ticker must contain only ASCII letters, digits, or '^'")));
}

#[test]
fn historical_volatility_requests_are_bounded() {
    let request = |horizons: Vec<usize>, limit: usize| HistoricalVolatilityRequest {
        ticker: "SPY".to_string(),
        horizons_sessions: horizons,
        series_limit: limit,
    };
    assert_eq!(validate_historical_volatility_request(&request(vec![21, 63], 252)), Ok(()));
    assert_eq!(
        validate_historical_volatility_request(&request(vec![], 252)),
        Err(invalid("horizons must contain between 1 and 6 values"))
    );
    assert_eq!(
        validate_historical_volatility_request(&request(vec![1, 2, 3, 4, 5, 6, 7], 252)),
        Err(invalid("horizons must contain between 1 and 6 values"))
    );
    assert_eq!(
        validate_historical_volatility_request(&request(vec![21, 253], 252)),
        Err(invalid("each horizon must be between 2 and 252"))
    );
    assert_eq!(
        validate_historical_volatility_request(&request(vec![21, 63, 21], 252)),
        Err(invalid("horizons must not contain duplicates"))
    );
    assert_eq!(
        validate_historical_volatility_request(&request(vec![21], 0)),
        Err(invalid("limit must be between 1 and 1260"))
    );
    assert_eq!(
        validate_historical_volatility_request(&request(vec![21], 1_261)),
        Err(invalid("limit must be between 1 and 1260"))
    );
}

#[test]
fn implied_volatility_indices_are_known_for_four_underlyings() {
    assert_eq!(implied_volatility_index("SPX"), Some("VIX"));
    assert_eq!(implied_volatility_index("AAPL"), Some("VXAPL"));
    assert_eq!(implied_volatility_index("GOOGL"), Some("VXGOG"));
    assert_eq!(implied_volatility_index("IBM"), Some("VXIBM"));
    assert_eq!(implied_volatility_index("MSFT"), None);
}

#[test]
fn use_cases_keep_their_collaborators() {
    let application = GammaExposureApplication::new(1, 2, 3, "specifications", 5);
    assert_eq!(*application.contract_specifications(), "specifications");
    let _ = MarketDataApplication::new((), (), ());
}

#[test]
fn portfolio_use_case_errors_name_the_portfolio() {
    assert_eq!(portfolio_not_found("main"), PortError::NotFound("portfolio 'main' was not found".to_string()));
    assert_eq!(portfolio_already_exists("main"), PortError::Conflict("portfolio 'main' already exists".to_string()));
    assert_eq!(refused_change(&PortfolioError::InvalidAmount), invalid("o montante deve ser positivo"));
    assert_eq!(
        invalid_simulation(&SimulationError::InvalidLeg("X".to_string())),
        invalid("perna inválida: X")
    );
}

#[test]
fn saved_strategies_are_named_and_identified() {
    assert_eq!(strategy_name("  Straddle  ").unwrap(), "Straddle");
    assert_eq!(strategy_name("   "), Err(invalid("strategy name must contain between 1 and 80 characters")));
    assert_eq!(strategy_name(&"x".repeat(81)), Err(invalid("strategy name must contain between 1 and 80 characters")));
    assert_eq!(strategy_ticker(" spx ").unwrap(), "SPX");
    assert_eq!(strategy_ticker("spx/w"), Err(invalid("invalid strategy ticker")));
    assert_eq!(check_strategy_id(0), Err(invalid("strategy id must be positive")));
    assert_eq!(check_strategy_id(7), Ok(()));
    assert_eq!(strategy_not_found(-3), PortError::NotFound("saved strategy '-3' was not found".to_string()));
}

#[test]
fn system_tickers_keep_their_configuration() {
    let kept = TrackedTickerConfiguration { active: true, historical_prices: false, option_snapshots: false };
    assert_eq!(protected_configuration("VIX", kept), Some(Ok(())));
    let other = TrackedTickerConfiguration { active: false, ..kept };
    assert_eq!(
        protected_configuration("VIX", other),
        Some(Err(PortError::Conflict("tracked ticker VIX is protected by the system".to_string())))
    );
    assert_eq!(protected_configuration("MSFT", other), None);
}

#[test]
fn configuring_a_ticker_resolves_it_only_when_it_becomes_active() {
    let mut entry = TrackedTicker::user("msft", TrackedTickerConfiguration {
        active: false,
        historical_prices: true,
        option_snapshots: false,
    })
    .unwrap();
    let active = TrackedTickerConfiguration { active: true, historical_prices: true, option_snapshots: true };
    assert!(needs_resolution(&entry, active));
    assert!(!needs_resolution(&entry, TrackedTickerConfiguration { active: false, ..active }));
    apply_configuration(&mut entry, active);
    assert_eq!(entry.configuration(), active);
    assert_eq!(entry.resolution_state, UnderlyingResolutionState::Pending);
}

#[test]
fn bootstrap_keeps_the_metadata_of_a_confirmed_entry() {
    let system = system_tickers().remove(0);
    let mut stored = system.clone();
    stored.validated_at = Some(UtcInstant { micros: 42 });
    stored.metadata = UnderlyingMetadata {
        currency: Some("USD".to_string()),
        exchange: None,
        timezone: None,
        instrument_type: Some("INDEX".to_string()),
    };
    let mut rejected = stored.clone();
    rejected.resolution_state = UnderlyingResolutionState::Rejected;
    rejected.validated_at = Some(UtcInstant { micros: 7 });
    let entry = bootstrap_entry(system.clone(), &vec![rejected, stored.clone()]);
    assert_eq!(entry.validated_at, Some(UtcInstant { micros: 42 }));
    assert_eq!(entry.metadata, stored.metadata);
    assert_eq!(bootstrap_entry(system.clone(), &vec![]), system);
}

#[test]
fn resolution_errors_map_to_port_errors() {
    assert_eq!(
        map_resolution_error(UnderlyingResolutionError::NotFound("n".to_string())),
        PortError::NotFound("n".to_string())
    );
    assert_eq!(
        map_resolution_error(UnderlyingResolutionError::TemporarilyUnavailable("t".to_string())),
        PortError::Unavailable("t".to_string())
    );
    assert_eq!(
        map_resolution_error(UnderlyingResolutionError::InvalidProviderResponse("i".to_string())),
        PortError::Unavailable("i".to_string())
    );
}

fn day(n: i32) -> CalendarDate {
    CalendarDate { days_from_ce: 739_000 + n }
}

#[test]
fn backfill_starts_from_the_missing_days() {
    let policy = MarketHistoryBackfillPolicy;
    let full: Vec<QuoteDay> = (0..30).map(|n| QuoteDay { date: day(n), has_price: true }).collect();
    assert_eq!(policy.since(&full, day(29)), None);
    assert_eq!(policy.since(&full, day(35)), Some(day(30)));
    let sparse: Vec<QuoteDay> = (0..30).map(|n| QuoteDay { date: day(n), has_price: n % 2 == 0 }).collect();
    assert_eq!(policy.since(&sparse, day(29)), Some(day(29 - 45)));
    assert_eq!(policy.since(&Vec::new(), day(10)), Some(day(10 - 45)));
}

fn run(state: DataRefreshState, next: Option<i64>) -> DataRefreshRun {
    let mut run = DataRefreshRun::running("r".to_string(), DataRefreshOrigin::Manual, UtcInstant { micros: 0 }, day(0));
    run.state = state;
    run.next_attempt_at = next.map(|micros| UtcInstant { micros });
    run
}

#[test]
fn scheduled_runs_after_a_failure_are_retries() {
    let now = UtcInstant { micros: 100 };
    assert_eq!(origin_for(DataRefreshTrigger::Startup, None, now), DataRefreshOrigin::Startup);
    assert_eq!(origin_for(DataRefreshTrigger::Manual, None, now), DataRefreshOrigin::Manual);
    assert_eq!(origin_for(DataRefreshTrigger::Scheduler, None, now), DataRefreshOrigin::Scheduled);
    let failed = run(DataRefreshState::Failed, Some(100));
    assert_eq!(origin_for(DataRefreshTrigger::Scheduler, Some(&failed), now), DataRefreshOrigin::Retry);
    let later = run(DataRefreshState::Partial, Some(101));
    assert_eq!(origin_for(DataRefreshTrigger::Scheduler, Some(&later), now), DataRefreshOrigin::Scheduled);
    let done = run(DataRefreshState::Completed, Some(0));
    assert_eq!(origin_for(DataRefreshTrigger::Scheduler, Some(&done), now), DataRefreshOrigin::Scheduled);
}

#[test]
fn runs_are_named_by_start_and_origin() {
    assert_eq!(origin_name(DataRefreshOrigin::Retry), "retry");
    assert_eq!(run_id(UtcInstant { micros: 1_700_000_000_123_456 }, DataRefreshOrigin::Scheduled), "1700000000123456-scheduled");
    assert_eq!(run_id(UtcInstant { micros: -5 }, DataRefreshOrigin::Startup), "-5-startup");
}

#[test]
fn refresh_timing_and_status() {
    assert_eq!(retry_attempt(UtcInstant { micros: 0 }), UtcInstant { micros: 300_000_000 });
    assert_eq!(not_before(UtcInstant { micros: 5 }, UtcInstant { micros: 9 }), UtcInstant { micros: 9 });
    assert_eq!(not_before(UtcInstant { micros: 10 }, UtcInstant { micros: 9 }), UtcInstant { micros: 10 });
    assert_eq!(check_recent_limit(0), Err(invalid("recent limit must be positive")));
    assert_eq!(check_recent_limit(3), Ok(()));
    assert!(latest_is_running(&vec![run(DataRefreshState::Running, None)]));
    assert!(!latest_is_running(&vec![]));
    assert_eq!(
        already_running(vec![]),
        Err(PortError::Conflict("a data refresh is already running".to_string()))
    );
    let first = run(DataRefreshState::Running, None);
    assert_eq!(already_running(vec![first.clone()]), Ok(StartDataRefreshResult::AlreadyRunning(first)));
}

#[test]
fn tallies_count_what_was_done_and_what_failed() {
    let mut tally = RefreshTally::start();
    tally.add(3, 2);
    tally.fail("SPY", "market_history", &PortError::Unavailable("down".to_string()));
    assert_eq!((tally.obtained, tally.persisted), (3, 2));
    assert_eq!(tally.failures, vec![failure("SPY", "market_history", &PortError::Unavailable("down".to_string()))]);
    assert_eq!(tally.failures[0].error, "down");

    let mut report = TrackedTickersSynchronizationReport::start(2);
    report.add(SynchronizationReport { items_obtained: 4, items_stored: 5 });
    report.fail("AAPL", "option_chain", &PortError::NotFound("none".to_string()));
    let mut end_of_day = EndOfDayReport::from_tracked(report);
    end_of_day.add(SynchronizationReport { items_obtained: 1, items_stored: 1 });
    end_of_day.fail("2026".to_string(), "yield_curves", &PortError::Unavailable("x".to_string()));
    assert_eq!((end_of_day.items_obtained, end_of_day.items_stored), (5, 6));
    assert_eq!(end_of_day.failures.len(), 2);
    assert_eq!(end_of_day.failures[1].operation, "yield_curves");
}

#[test]
fn profile_points_are_odd_between_21_and_201() {
    assert_eq!(check_profile_points(21), Ok(()));
    assert_eq!(check_profile_points(101), Ok(()));
    assert_eq!(check_profile_points(201), Ok(()));
    for points in [0usize, 19, 20, 22, 100, 202, 203] {
        assert_eq!(
            check_profile_points(points),
            Err(invalid("points must be an odd number between 21 and 201"))
        );
    }
}

#[test]
fn trailing_window_spans_the_requested_sessions_of_usable_quotes() {
    let mut quotes: Vec<QuoteDay> = (0..10).map(|n| QuoteDay { date: day(n), has_price: true }).collect();
    quotes[3].has_price = false;
    // Usable positions up to day 8: 0 1 2 4 5 6 7 8.
    assert_eq!(trailing_window(&quotes, 5, day(8)), Some((2, 8)));
    assert_eq!(trailing_window(&quotes, 7, day(8)), Some((0, 8)));
    assert_eq!(trailing_window(&quotes, 8, day(8)), None);
    assert_eq!(trailing_window(&quotes, 0, day(9)), Some((9, 9)));
    assert_eq!(trailing_window(&[], 0, day(9)), None);
}

#[test]
fn window_between_finds_both_days_among_usable_quotes() {
    let mut quotes: Vec<QuoteDay> = (0..10).map(|n| QuoteDay { date: day(n), has_price: true }).collect();
    quotes[3].has_price = false;
    assert_eq!(window_between(&quotes, day(2), day(8)), Some((2, 8)));
    assert_eq!(window_between(&quotes, day(3), day(8)), None);
    assert_eq!(window_between(&quotes, day(2), day(12)), None);
    assert_eq!(window_between(&quotes, day(9), day(8)), None);
}

#[test]
fn expirations_are_listed_once_in_calendar_order() {
    assert_eq!(distinct_days(&[day(5), day(1), day(5), day(3), day(1)]), vec![day(1), day(3), day(5)]);
    assert_eq!(distinct_days(&[]), vec![]);
}

#[test]
fn minutes_to_expiration_round_towards_zero() {
    let at = |micros: i64| UtcInstant { micros };
    assert_eq!(minutes_until(at(0), at(60_000_000)), 1);
    assert_eq!(minutes_until(at(0), at(119_999_999)), 1);
    assert_eq!(minutes_until(at(0), at(59_999_999)), 0);
    assert_eq!(minutes_until(at(0), at(-59_999_999)), 0);
    assert_eq!(minutes_until(at(0), at(-60_000_001)), -1);
    assert_eq!(minutes_until(at(i64::MIN), at(i64::MAX)), 307_445_734_561);
}

fn eligible(ticker: &str, historical_prices: bool, option_snapshots: bool) -> RefreshTicker {
    RefreshTicker { ticker: ticker.to_string(), historical_prices, option_snapshots }
}

#[test]
fn tracked_ticker_synchronization_skips_the_term_structure_of_a_failed_chain() {
    let mut sync = TrackedTickersSynchronization::start(vec![
        eligible("AAA", true, true),
        eligible("BBB", false, true),
        eligible("CCC", false, false),
        eligible("DDD", true, false),
    ]);
    assert_eq!(sync.report().tickers, 4);
    assert_eq!(sync.next_action(), SynchronizationAction::SynchronizeMarketHistory { ticker: "AAA".to_string() });
    sync.failed(&PortError::Unavailable("history".to_string()));
    assert_eq!(sync.next_action(), SynchronizationAction::SynchronizeOptionChain { ticker: "AAA".to_string() });
    sync.synchronized(SynchronizationReport { items_obtained: 3, items_stored: 2 });
    assert_eq!(sync.next_action(), SynchronizationAction::SynchronizeTermStructure { ticker: "AAA".to_string() });
    sync.synchronized(SynchronizationReport { items_obtained: 1, items_stored: 1 });
    assert_eq!(sync.next_action(), SynchronizationAction::SynchronizeOptionChain { ticker: "BBB".to_string() });
    sync.failed(&PortError::Unavailable("chain".to_string()));
    assert_eq!(sync.next_action(), SynchronizationAction::SynchronizeMarketHistory { ticker: "DDD".to_string() });
    sync.synchronized(SynchronizationReport { items_obtained: 5, items_stored: 5 });
    assert_eq!(sync.next_action(), SynchronizationAction::Finish);

    let report = sync.report().clone();
    assert_eq!(report.items_obtained, 9);
    assert_eq!(report.items_stored, 8);
    assert_eq!(
        report.failures,
        vec![
            SynchronizationFailure {
                ticker: "AAA".to_string(),
                operation: "market_history".to_string(),
                error: "history".to_string()
            },
            SynchronizationFailure {
                ticker: "BBB".to_string(),
                operation: "option_chain".to_string(),
                error: "chain".to_string()
            },
        ]
    );
}

#[test]
fn synchronizing_no_tickers_finishes_at_once() {
    let sync = TrackedTickersSynchronization::start(vec![]);
    assert_eq!(sync.next_action(), SynchronizationAction::Finish);
    assert_eq!(sync.report().tickers, 0);
}

#[test]
fn positions_are_priced_live_in_session_and_from_storage_outside_it() {
    let equity = Instrument::Equity { ticker: "AAPL".to_string() };
    let option = Instrument::Option { occ_symbol: "SPXW260821C05000000".to_string() };
    assert_eq!(price_source(&equity, true), PriceSource::LiveMarketPrice);
    assert_eq!(price_source(&equity, false), PriceSource::EndOfDayMarketPrice);
    assert_eq!(price_source(&option, true), PriceSource::LiveOptionChain);
    assert_eq!(price_source(&option, false), PriceSource::StoredOptionSnapshot);
    assert_eq!(PriceSource::LiveMarketPrice.label(), "live market price");
    assert_eq!(PriceSource::EndOfDayMarketPrice.label(), "end-of-day market price");
    assert_eq!(PriceSource::LiveOptionChain.label(), "live option chain");
    assert_eq!(PriceSource::StoredOptionSnapshot.label(), "stored option snapshot");
}

#[test]
fn weekly_spx_options_are_quoted_in_the_spx_chain() {
    assert_eq!(option_chain_ticker("SPXW"), "SPX");
    assert_eq!(option_chain_ticker("spxw"), "SPX");
    assert_eq!(option_chain_ticker("SPX"), "SPX");
    assert_eq!(option_chain_ticker("AAPL"), "AAPL");
}
