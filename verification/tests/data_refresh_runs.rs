use chrono::Datelike;
use mercado::application::data_refresh::{
    record_failed_run, recover_run, DataRefreshExecution, QuoteDay, RefreshAction, RefreshTicker,
};
use mercado::domain::data_refresh::{DataRefreshFailure, DataRefreshOrigin, DataRefreshRun, DataRefreshState};
use mercado::port::PortError;
use mercado::time::{CalendarDate, UtcInstant};

fn started() -> DataRefreshRun {
    DataRefreshRun::running(
        "1-startup".to_string(),
        DataRefreshOrigin::Startup,
        UtcInstant { micros: 1 },
        CalendarDate { days_from_ce: 739_000 },
    )
}

fn failure() -> DataRefreshFailure {
    DataRefreshFailure { ticker: "SPY".to_string(), operation: "market_history".to_string(), error: "x".to_string() }
}

#[test]
fn finished_runs_are_completed_partial_or_failed() {
    let mut run = started();
    assert_eq!(run.summary, "Atualização iniciada");
    run.finish(UtcInstant { micros: 2 }, 10, 10, vec![], None).unwrap();
    assert_eq!(run.state, DataRefreshState::Completed);
    assert_eq!(run.summary, "Atualização concluída");

    let mut run = started();
    run.finish(UtcInstant { micros: 2 }, 1, 0, vec![failure(), failure()], Some(UtcInstant { micros: 9 })).unwrap();
    assert_eq!(run.state, DataRefreshState::Partial);
    assert_eq!(run.failure_count, 2);
    assert_eq!(run.summary, "Atualização parcial: 2 falha(s)");
    assert_eq!(run.next_attempt_at, Some(UtcInstant { micros: 9 }));

    let mut run = started();
    run.finish(UtcInstant { micros: 2 }, 0, 0, vec![failure()], None).unwrap();
    assert_eq!(run.state, DataRefreshState::Failed);
    assert_eq!(run.summary, "Atualização falhou: 1 falha(s)");
}

#[test]
fn a_finished_run_is_never_finished_or_interrupted_again() {
    let mut run = started();
    run.finish(UtcInstant { micros: 2 }, 1, 1, vec![], None).unwrap();
    let finished = run.clone();
    assert_eq!(
        run.finish(UtcInstant { micros: 3 }, 0, 0, vec![], None),
        Err(PortError::Conflict("only a running refresh can be finished".to_string()))
    );
    assert_eq!(
        run.interrupt(UtcInstant { micros: 3 }),
        Err(PortError::Conflict("only a running refresh can be interrupted".to_string()))
    );
    assert_eq!(run, finished);
}

#[test]
fn interrupted_runs_fail_with_a_system_failure() {
    let mut run = started();
    run.interrupt(UtcInstant { micros: 5 }).unwrap();
    assert_eq!(run.state, DataRefreshState::Failed);
    assert_eq!(run.failure_count, 1);
    assert_eq!(run.finished_at, Some(UtcInstant { micros: 5 }));
    assert_eq!(run.failures[0].ticker, "system");
    assert_eq!(run.failures[0].error, "process interrupted");
    assert_eq!(run.summary, "Atualização falhou: execução interrompida pelo encerramento do processo");
}

fn watched(ticker: &str, historical_prices: bool, option_snapshots: bool) -> RefreshTicker {
    RefreshTicker { ticker: ticker.to_string(), historical_prices, option_snapshots }
}

fn target() -> CalendarDate {
    CalendarDate { days_from_ce: 739_000 }
}

fn target_year() -> i32 {
    chrono::NaiveDate::from_num_days_from_ce_opt(739_000).unwrap().year()
}

#[test]
fn a_refresh_walks_every_ticker_then_the_index_and_the_curves() {
    let tickers = vec![
        watched("AAA", true, true),
        watched("BBB", false, false),
        watched("CCC", false, true),
        watched("DDD", true, false),
    ];
    let mut refresh = DataRefreshExecution::start(Ok(tickers), target());
    assert_eq!(refresh.next_action(), RefreshAction::LoadMarketHistory { ticker: "AAA".to_string() });

    let complete: Vec<QuoteDay> =
        (0..30).map(|n| QuoteDay { date: CalendarDate { days_from_ce: 738_971 + n }, has_price: true }).collect();
    refresh.history_loaded(&complete);
    assert_eq!(refresh.next_action(), RefreshAction::SynchronizeOptionChain { ticker: "AAA".to_string() });

    refresh.synchronized(10, 8);
    assert_eq!(refresh.next_action(), RefreshAction::SynchronizeTermStructure { ticker: "AAA".to_string() });

    refresh.failed(&PortError::Unavailable("down".to_string()));
    assert_eq!(refresh.next_action(), RefreshAction::SynchronizeOptionChain { ticker: "CCC".to_string() });

    refresh.failed(&PortError::Unavailable("chain".to_string()));
    assert_eq!(refresh.next_action(), RefreshAction::LoadMarketHistory { ticker: "DDD".to_string() });

    refresh.history_loaded(&vec![]);
    assert_eq!(
        refresh.next_action(),
        RefreshAction::SynchronizeMarketHistory {
            ticker: "DDD".to_string(),
            since: CalendarDate { days_from_ce: 739_000 - 45 }
        }
    );

    refresh.synchronized(5, 5);
    assert_eq!(refresh.next_action(), RefreshAction::SynchronizeVolatilityIndex { ticker: "VIX".to_string() });

    refresh.synchronized(1, 1);
    assert_eq!(refresh.next_action(), RefreshAction::SynchronizeYieldCurves { year: target_year() });
    assert!(!refresh.is_done());

    refresh.failed(&PortError::NotFound("no curve".to_string()));
    assert_eq!(refresh.next_action(), RefreshAction::Finish);
    assert!(refresh.is_done());

    let tally = refresh.tally().clone();
    assert_eq!(tally.obtained, 16);
    assert_eq!(tally.persisted, 14);
    assert_eq!(
        tally.failures,
        vec![
            DataRefreshFailure {
                ticker: "AAA".to_string(),
                operation: "term_structure".to_string(),
                error: "down".to_string()
            },
            DataRefreshFailure {
                ticker: "CCC".to_string(),
                operation: "option_chain".to_string(),
                error: "chain".to_string()
            },
            DataRefreshFailure {
                ticker: target_year().to_string(),
                operation: "yield_curves".to_string(),
                error: "no curve".to_string()
            },
        ]
    );

    let mut run = started();
    refresh.complete(&mut run, UtcInstant { micros: 1_000 }, None).unwrap();
    assert_eq!(run.state, DataRefreshState::Partial);
    assert_eq!(run.items_obtained, 16);
    assert_eq!(run.failure_count, 3);
    assert_eq!(run.next_attempt_at, Some(UtcInstant { micros: 1_000 + 300_000_000 }));
}

#[test]
fn a_refresh_without_tickers_still_synchronizes_the_index_and_curves() {
    let mut refresh = DataRefreshExecution::start(Err(PortError::Unavailable("store".to_string())), target());
    assert_eq!(refresh.next_action(), RefreshAction::SynchronizeVolatilityIndex { ticker: "VIX".to_string() });
    assert_eq!(
        refresh.tally().failures,
        vec![DataRefreshFailure {
            ticker: "system".to_string(),
            operation: "tracked_tickers".to_string(),
            error: "store".to_string()
        }]
    );
    refresh.failed(&PortError::Unavailable("vix".to_string()));
    refresh.synchronized(2, 2);
    assert!(refresh.is_done());

    let mut run = started();
    refresh.complete(&mut run, UtcInstant { micros: 5 }, None).unwrap();
    assert_eq!(run.state, DataRefreshState::Partial);
    assert_eq!(run.failure_count, 2);
}

#[test]
fn a_clean_refresh_is_next_tried_at_the_calendar_attempt() {
    let mut refresh = DataRefreshExecution::start(Ok(vec![watched("AAA", false, false)]), target());
    refresh.synchronized(1, 1);
    refresh.synchronized(1, 1);
    assert_eq!(refresh.next_action(), RefreshAction::Finish);
    let mut run = started();
    refresh.complete(&mut run, UtcInstant { micros: 5 }, Some(UtcInstant { micros: 99 })).unwrap();
    assert_eq!(run.state, DataRefreshState::Completed);
    assert_eq!(run.next_attempt_at, Some(UtcInstant { micros: 99 }));
}

#[test]
fn a_refresh_that_stopped_on_an_error_is_retried_in_five_minutes() {
    let mut run = started();
    record_failed_run(&mut run, UtcInstant { micros: 10 }, &PortError::Unavailable("boom".to_string())).unwrap();
    assert_eq!(run.state, DataRefreshState::Failed);
    assert_eq!(run.summary, "Atualização falhou: boom");
    assert_eq!(run.next_attempt_at, Some(UtcInstant { micros: 300_000_010 }));
    assert_eq!(run.failures.last().unwrap().operation, "refresh");
    assert!(record_failed_run(&mut run, UtcInstant { micros: 20 }, &PortError::Unavailable("x".to_string())).is_err());
}

#[test]
fn recovered_runs_are_interrupted_and_due_at_once() {
    let mut run = started();
    recover_run(&mut run, UtcInstant { micros: 42 }).unwrap();
    assert_eq!(run.state, DataRefreshState::Failed);
    assert_eq!(run.finished_at, Some(UtcInstant { micros: 42 }));
    assert_eq!(run.next_attempt_at, Some(UtcInstant { micros: 42 }));
    assert!(recover_run(&mut run, UtcInstant { micros: 43 }).is_err());
}
