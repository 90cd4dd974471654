use mercado::decimal::{decimal, Decimal};
use mercado::domain::gamma_exposure::{
    contract_exclusion_reasons, factual_as_of, modeled_exclusion_reason, record_exclusion, ExclusionReason,
    ExclusionSample, InputState, SnapshotOrigin, EXCLUSION_SAMPLE_LIMIT,
};
use mercado::domain::historical_volatility::{
    chronological_positions, has_duplicate_instants, history_diagnostics, horizon_refusal, required_prices,
    series_start, HistoricalVolatilityStatus,
};
use mercado::domain::options::ProviderTimestampTimezone;
use InputState::{Invalid, Missing, Usable};
use mercado::http_ports::{
    LegacyHttpPorts, MarketViewingPorts, OptionsViewingPorts, SynchronizationPorts, TrackedTickerPorts,
};
use mercado::domain::portfolio::{
    CashMovement, CashMovementKind, Currency, CurrencyExchange, Dividend, ExchangeRate, Instrument, Money,
    PortfolioError, PortfolioEvent, Trade, TradeSide,
};
use mercado::time::{CalendarDate, UtcInstant};
use mercado::views::{instrument_label, movement};

fn usd() -> Currency {
    Currency::new("USD").unwrap()
}

#[test]
fn instruments_are_listed_by_symbol() {
    assert_eq!(instrument_label(&Instrument::Equity { ticker: "AAPL".to_string() }), "AAPL");
    assert_eq!(instrument_label(&Instrument::Option { occ_symbol: "IBM260814C00220000".to_string() }), "IBM260814C00220000");
}

#[test]
fn decimals_are_written_rounded_and_normalized_by_rust_decimal() {
    let listed = |rate: &str| {
        let mut trade = Trade::new(
            "t".to_string(),
            Instrument::Equity { ticker: "AAPL".to_string() },
            TradeSide::Buy,
            UtcInstant { micros: 2 },
            decimal("1.50").unwrap(),
            Money::new(decimal("10.00").unwrap(), usd()),
        )
        .unwrap();
        trade.tax_rate_to_eur = Some(
            ExchangeRate::new(usd(), Currency::eur(), decimal(rate).unwrap(), CalendarDate { days_from_ce: 739_000 }, "BCE".to_string())
                .unwrap(),
        );
        movement(&PortfolioEvent::Trade(trade)).unwrap()
    };
    // The inverse rate is rounded to six places, then written without trailing zeros.
    assert_eq!(listed("0.3").exchange_rate_label, Some("1 EUR → 3.333333 USD · BCE".to_string()));
    assert_eq!(listed("0.5000").exchange_rate_label, Some("1 EUR → 2 USD · BCE".to_string()));
    // Amounts keep the scale rust_decimal gives them.
    assert_eq!(listed("0.5000").amount, "-15.0000");
    assert_eq!(listed("0.5000").tax_rate, Some("0.5000".to_string()));
}

#[test]
fn cash_movements_are_listed_with_their_sign() {
    let withdrawal = PortfolioEvent::CashMovement(CashMovement {
        id: "w".to_string(),
        occurred_at: UtcInstant { micros: 1 },
        kind: CashMovementKind::Withdrawal,
        amount: Money::new(decimal("12.50").unwrap(), usd()),
    });
    let view = movement(&withdrawal).unwrap();
    assert_eq!(view.id, "w");
    assert_eq!(view.kind, "Caixa");
    assert_eq!(view.description, "Levantamento");
    assert_eq!(view.amount, "-12.50");
    assert_eq!(view.currency, "USD");
    assert_eq!(view.exchange_rate_label, None);
}

#[test]
fn trades_are_listed_with_their_tax_rate_and_its_inverse() {
    let mut trade = Trade::new(
        "t".to_string(),
        Instrument::Equity { ticker: "AAPL".to_string() },
        TradeSide::Buy,
        UtcInstant { micros: 2 },
        decimal("2").unwrap(),
        Money::new(decimal("10").unwrap(), usd()),
    )
    .unwrap();
    trade.tax_rate_to_eur = Some(
        ExchangeRate::new(usd(), Currency::eur(), decimal("0.8").unwrap(), CalendarDate { days_from_ce: 739_000 }, "BCE".to_string())
            .unwrap(),
    );
    let view = movement(&PortfolioEvent::Trade(trade)).unwrap();
    assert_eq!(view.kind, "Transação");
    assert_eq!(view.description, "Compra AAPL");
    assert_eq!(view.amount, "-20");
    assert_eq!(view.tax_amount_eur, Some("-16.0".to_string()));
    assert_eq!(view.tax_rate, Some("0.8".to_string()));
    assert_eq!(view.tax_rate_source, Some("BCE".to_string()));
    assert_eq!(view.exchange_rate_label, Some("1 EUR → 1.25 USD · BCE".to_string()));
}

#[test]
fn trades_without_a_tax_rate_are_refused() {
    let trade = Trade::new(
        "t".to_string(),
        Instrument::Equity { ticker: "AAPL".to_string() },
        TradeSide::Sell,
        UtcInstant { micros: 2 },
        decimal("2").unwrap(),
        Money::new(decimal("10").unwrap(), usd()),
    )
    .unwrap();
    assert_eq!(movement(&PortfolioEvent::Trade(trade)), Err(PortfolioError::MissingTaxExchangeRate));
}

#[test]
fn exchanges_and_dividends_are_listed() {
    let exchange = CurrencyExchange::checked_new(
        "fx".to_string(),
        UtcInstant { micros: 3 },
        Money::new(decimal("86").unwrap(), Currency::eur()),
        Money::new(decimal("100").unwrap(), usd()),
        ExchangeRate::new(usd(), Currency::eur(), decimal("0.86").unwrap(), CalendarDate { days_from_ce: 739_000 }, "T".to_string())
            .unwrap(),
    )
    .unwrap()
    .unwrap();
    let view = movement(&PortfolioEvent::CurrencyExchange(exchange)).unwrap();
    assert_eq!(view.kind, "Câmbio");
    assert_eq!(view.description, "86 EUR → 100 USD");
    assert_eq!(view.counter_amount, Some("86".to_string()));
    assert_eq!(view.exchange_rate_label, Some("1 EUR → 1.162791 USD · T".to_string()));

    let dividend = Dividend {
        id: "d".to_string(),
        instrument: Instrument::Equity { ticker: "MSFT".to_string() },
        paid_at: UtcInstant { micros: 4 },
        gross: Money::new(decimal("10").unwrap(), usd()),
        withholding_tax: Money::new(decimal("1.5").unwrap(), usd()),
        tax_rate_to_eur: None,
    };
    let view = movement(&PortfolioEvent::Dividend(dividend)).unwrap();
    assert_eq!(view.description, "Dividendo MSFT");
    assert_eq!(view.amount, "8.5");
}

#[test]
fn exclusions_are_counted_by_reason_and_sampled() {
    let mut by_reason: Vec<(ExclusionReason, u64)> = Vec::new();
    let mut samples: Vec<ExclusionSample> = Vec::new();
    for index in 0..25 {
        record_exclusion(
            format!("C{index}"),
            vec![ExclusionReason::MissingGamma, ExclusionReason::MissingSpot, ExclusionReason::MissingGamma],
            &mut by_reason,
            &mut samples,
        );
    }
    assert_eq!(by_reason, vec![(ExclusionReason::MissingSpot, 25), (ExclusionReason::MissingGamma, 50)]);
    assert_eq!(samples.len(), EXCLUSION_SAMPLE_LIMIT);
    assert_eq!(samples[0].occ_symbol, "C0");
    record_exclusion("X".to_string(), vec![ExclusionReason::NumericOverflow], &mut by_reason, &mut samples);
    assert_eq!(by_reason.last(), Some(&(ExclusionReason::NumericOverflow, 1)));
}

#[test]
fn decimals_compare_by_value() {
    assert_eq!(decimal("1.50").unwrap(), decimal("1.5").unwrap());
    assert_ne!(decimal("1.5").unwrap(), Decimal::one());
    assert!(decimal("abc").is_err());
}

fn followed(ticker: &str) -> mercado::domain::tracked_ticker::TrackedTicker {
    mercado::domain::tracked_ticker::TrackedTicker {
        ticker: ticker.to_string(),
        source: mercado::domain::tracked_ticker::TrackedTickerSource::System,
        active: true,
        historical_prices: false,
        option_snapshots: true,
        resolution_state: mercado::domain::tracked_ticker::UnderlyingResolutionState::Resolved,
        validated_at: None,
        metadata: mercado::domain::tracked_ticker::UnderlyingMetadata::default(),
    }
}

#[test]
fn classifies_spy_as_an_etf() {
    let summary = mercado::views::asset_summary(&followed("SPY"));
    assert_eq!(summary.kind, mercado::views::AssetKind::Etf);
    assert_eq!(summary.name, "SPDR S&P 500 ETF Trust");
}

#[test]
fn classifies_spx_as_an_index() {
    let summary = mercado::views::asset_summary(&followed("SPX"));
    assert_eq!(summary.kind, mercado::views::AssetKind::Index);
    assert_eq!(summary.name, "S&P 500 Index");
}

#[test]
fn unknown_tickers_are_equities_named_by_their_ticker() {
    let summary = mercado::views::asset_summary(&followed("XLRE"));
    assert_eq!(summary.kind, mercado::views::AssetKind::Equity);
    assert_eq!(summary.name, "XLRE");
    assert_eq!(summary.ticker, "XLRE");
}

#[test]
fn observed_contracts_list_every_reason_in_order() {
    assert_eq!(contract_exclusion_reasons(Usable, Usable, Usable, Usable, true), vec![]);
    assert_eq!(
        contract_exclusion_reasons(Missing, Invalid, Missing, Invalid, false),
        vec![
            ExclusionReason::MissingSpot,
            ExclusionReason::InvalidGamma,
            ExclusionReason::MissingOpenInterest,
            ExclusionReason::InvalidMultiplier,
            ExclusionReason::InvalidStrike,
        ]
    );
    assert_eq!(
        contract_exclusion_reasons(Invalid, Usable, Invalid, Missing, true),
        vec![ExclusionReason::InvalidSpot, ExclusionReason::InvalidOpenInterest, ExclusionReason::MissingMultiplier]
    );
}

#[test]
fn modeled_contracts_report_the_first_reason() {
    assert_eq!(modeled_exclusion_reason(true, Missing, Missing, Missing, false, false), Some(ExclusionReason::ExpiredContract));
    assert_eq!(
        modeled_exclusion_reason(false, Missing, Invalid, Usable, true, true),
        Some(ExclusionReason::MissingImpliedVolatility)
    );
    assert_eq!(
        modeled_exclusion_reason(false, Invalid, Usable, Usable, true, true),
        Some(ExclusionReason::InvalidImpliedVolatility)
    );
    assert_eq!(
        modeled_exclusion_reason(false, Usable, Invalid, Missing, true, true),
        Some(ExclusionReason::InvalidOpenInterest)
    );
    assert_eq!(
        modeled_exclusion_reason(false, Usable, Usable, Missing, false, true),
        Some(ExclusionReason::MissingMultiplier)
    );
    assert_eq!(modeled_exclusion_reason(false, Usable, Usable, Usable, false, false), Some(ExclusionReason::InvalidStrike));
    assert_eq!(
        modeled_exclusion_reason(false, Usable, Usable, Usable, true, false),
        Some(ExclusionReason::MissingForwardCarry)
    );
    assert_eq!(modeled_exclusion_reason(false, Usable, Usable, Usable, true, true), None);
}

#[test]
fn exposure_time_prefers_the_observed_spot() {
    let observed = UtcInstant { micros: 10 };
    let snapshot = UtcInstant { micros: 20 };
    assert_eq!(factual_as_of(Some(observed), None, snapshot, SnapshotOrigin::Intraday), Some(observed));
    assert_eq!(
        factual_as_of(None, Some(ProviderTimestampTimezone::VerifiedOffset), snapshot, SnapshotOrigin::Intraday),
        Some(snapshot)
    );
    assert_eq!(
        factual_as_of(None, Some(ProviderTimestampTimezone::Unverified), snapshot, SnapshotOrigin::EndOfDay),
        None
    );
    assert_eq!(factual_as_of(None, None, snapshot, SnapshotOrigin::EndOfDay), Some(snapshot));
    assert_eq!(factual_as_of(None, None, snapshot, SnapshotOrigin::Intraday), None);
}

#[test]
fn interface_groups_hold_their_use_cases() {
    let _market = MarketViewingPorts::new("market", "sectors");
    let _options = OptionsViewingPorts::new("options", "gamma");
    let _synchronization = SynchronizationPorts::new("synchronization", "refresh");
    let _tracked = TrackedTickerPorts::new("management", "resolution");
    let legacy = LegacyHttpPorts {
        market_data: 1,
        market_stream: 2,
        market_volatility: 3,
        interest_rates: 4,
        portfolios: 5,
        portfolio_valuation: 6,
        options: 7,
        simulation: 8,
        intraday_simulation: 9,
        intraday_options: 10,
        saved_strategies: 11,
        tracked_tickers: 12,
    };
    let copy = legacy.clone();
    assert_eq!(copy.market_data + copy.tracked_tickers, 13);
}

fn at(micros: i64) -> UtcInstant {
    UtcInstant { micros }
}

#[test]
fn sorting_is_stable_and_repeated_instants_are_found() {
    let instants = [at(30), at(10), at(20), at(10), at(5)];
    assert_eq!(chronological_positions(&instants), vec![4, 1, 3, 2, 0]);
    assert!(has_duplicate_instants(&instants));
    assert!(!has_duplicate_instants(&[at(3), at(1), at(2)]));
    assert!(!has_duplicate_instants(&[]));
    assert_eq!(chronological_positions(&[]), Vec::<usize>::new());
}

#[test]
fn horizons_need_one_more_price_than_their_window() {
    assert_eq!(required_prices(20), 21);
    assert_eq!(required_prices(usize::MAX), usize::MAX);
    assert_eq!(horizon_refusal(true, 100, 20), Some((HistoricalVolatilityStatus::InvalidData, "duplicate_timestamps")));
    assert_eq!(horizon_refusal(false, 0, 20), Some((HistoricalVolatilityStatus::NoValidPrices, "no_valid_prices")));
    assert_eq!(
        horizon_refusal(false, 20, 20),
        Some((HistoricalVolatilityStatus::InsufficientHistory, "insufficient_history"))
    );
    assert_eq!(horizon_refusal(false, 21, 20), None);
}

#[test]
fn long_series_keep_their_last_values() {
    assert_eq!(series_start(300, 252), (48, true));
    assert_eq!(series_start(252, 252), (0, false));
    assert_eq!(series_start(10, usize::MAX), (0, false));
    assert_eq!(history_diagnostics(true, 2), vec!["duplicate_timestamps".to_string(), "invalid_prices_ignored".to_string()]);
    assert_eq!(history_diagnostics(false, 1), vec!["invalid_prices_ignored".to_string()]);
    assert!(history_diagnostics(false, 0).is_empty());
}
