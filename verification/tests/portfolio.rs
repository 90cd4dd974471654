use chrono::Datelike;
use chrono::TimeZone;
use mercado::decimal::{decimal, Decimal};
use mercado::domain::portfolio::{
    CashMovement, CashMovementKind, Currency, CurrencyExchange, Dividend, ExchangeRate, Instrument,
    Money, Portfolio, PortfolioError, PortfolioEvent, Position, Trade, TradeSide,
};
use mercado::time::{CalendarDate, UtcInstant};
use mercado::views::summary;

fn instant(year: i32, month: u32, day: u32, hour: u32, minute: u32, second: u32) -> UtcInstant {
    UtcInstant {
        micros: chrono::Utc
            .with_ymd_and_hms(year, month, day, hour, minute, second)
            .unwrap()
            .timestamp_micros(),
    }
}

fn date(year: i32, month: u32, day: u32) -> CalendarDate {
    CalendarDate {
        days_from_ce: chrono::NaiveDate::from_ymd_opt(year, month, day).unwrap().num_days_from_ce(),
    }
}

fn usd_trade() -> Trade {
    Trade::new(
        "trade-1".to_string(),
        Instrument::Equity { ticker: "AAPL".to_string() },
        TradeSide::Buy,
        instant(2026, 7, 17, 14, 30, 0),
        decimal("10").unwrap(),
        Money::new(decimal("200.15").unwrap(), Currency::new("usd").unwrap()),
    )
    .unwrap()
}

fn balance(balances: &[(String, Decimal)], code: &str) -> Decimal {
    balances.iter().find(|(currency, _)| currency == code).map(|(_, amount)| *amount).unwrap()
}

#[test]
fn preserves_original_money_and_uses_the_recorded_tax_rate() {
    let mut trade = usd_trade();
    trade.tax_rate_to_eur = Some(
        ExchangeRate::new(
            Currency::new("USD").unwrap(),
            Currency::eur(),
            decimal("0.92").unwrap(),
            date(2026, 7, 17),
            "BCE".to_string(),
        )
        .unwrap(),
    );

    assert_eq!(trade.gross_amount().amount, decimal("2001.50").unwrap());
    assert_eq!(trade.gross_amount_for_tax_in_eur().unwrap().amount, decimal("1841.3800").unwrap());
    assert_eq!(trade.unit_price.currency.code(), "USD");
}

#[test]
fn applies_the_standard_option_contract_multiplier() {
    let trade = Trade::new(
        "option-1".to_string(),
        Instrument::Option { occ_symbol: "IBM260814C00220000".to_string() },
        TradeSide::Buy,
        instant(2026, 7, 16, 20, 56, 30),
        Decimal::one(),
        Money::new(decimal("12.025").unwrap(), Currency::new("USD").unwrap()),
    )
    .unwrap();

    assert_eq!(trade.gross_amount().amount, decimal("1202.5").unwrap());
}

#[test]
fn currency_exchange_moves_both_original_currency_balances() {
    let mut portfolio = Portfolio::new("main".to_string(), "Principal".to_string(), Currency::eur()).unwrap();
    let usd = Currency::new("USD").unwrap();
    portfolio
        .record(PortfolioEvent::CurrencyExchange(
            CurrencyExchange::checked_new(
                "fx-1".to_string(),
                instant(2026, 7, 16, 20, 56, 30),
                Money::new(decimal("2156.45").unwrap(), Currency::eur()),
                Money::new(decimal("2507.5").unwrap(), usd.clone()),
                ExchangeRate::new(usd, Currency::eur(), decimal("0.86").unwrap(), date(2026, 7, 16), "TEST".to_string())
                    .unwrap(),
            )
            .unwrap()
            .unwrap(),
        ))
        .unwrap();

    let cash = portfolio.cash_balances();
    assert_eq!(balance(&cash, "EUR"), decimal("-2156.45").unwrap());
    assert_eq!(balance(&cash, "USD"), decimal("2507.5").unwrap());
    assert_eq!(portfolio.cash_value_in_base().unwrap().amount, Decimal::zero());
}

#[test]
fn refuses_to_infer_a_missing_historical_tax_rate() {
    assert_eq!(usd_trade().gross_amount_for_tax_in_eur(), Err(PortfolioError::MissingTaxExchangeRate));
}

#[test]
fn rebuilds_positions_and_multicurrency_cash_from_events() {
    let mut portfolio = Portfolio::new("main".to_string(), "Principal".to_string(), Currency::eur()).unwrap();
    portfolio
        .record(PortfolioEvent::CashMovement(CashMovement {
            id: "deposit-1".to_string(),
            occurred_at: instant(2026, 7, 17, 8, 0, 0),
            kind: CashMovementKind::Deposit,
            amount: Money::new(decimal("5000").unwrap(), Currency::new("USD").unwrap()),
        }))
        .unwrap();
    let mut trade = usd_trade();
    trade.fees.push(Money::new(decimal("1.25").unwrap(), Currency::new("USD").unwrap()));
    portfolio.record(PortfolioEvent::Trade(trade.clone())).unwrap();

    assert_eq!(
        portfolio.positions(),
        vec![Position { instrument: trade.instrument.clone(), quantity: decimal("10").unwrap() }]
    );
    assert_eq!(balance(&portfolio.cash_balances(), "USD"), decimal("2997.25").unwrap());
    assert_eq!(
        portfolio.record(PortfolioEvent::Trade(trade)),
        Err(PortfolioError::DuplicateEventId("trade-1".to_string()))
    );
}

fn fifo_portfolio() -> Portfolio {
    let mut portfolio = Portfolio::new("main".to_string(), "Principal".to_string(), Currency::eur()).unwrap();
    let instrument = Instrument::Equity { ticker: "AAPL".to_string() };
    let rate = |date| {
        ExchangeRate::new(Currency::new("USD").unwrap(), Currency::eur(), decimal("0.9").unwrap(), date, "BCE".to_string())
            .unwrap()
    };
    for (id, day, quantity, price, side) in [
        ("buy-1", 1, "10", "100", TradeSide::Buy),
        ("buy-2", 2, "5", "120", TradeSide::Buy),
        ("sell-1", 3, "12", "150", TradeSide::Sell),
    ] {
        let mut trade = Trade::new(
            id.to_string(),
            instrument.clone(),
            side,
            instant(2026, 7, day, 14, 30, 0),
            decimal(quantity).unwrap(),
            Money::new(decimal(price).unwrap(), Currency::new("USD").unwrap()),
        )
        .unwrap();
        trade.tax_rate_to_eur = Some(rate(date(2026, 7, day)));
        portfolio.record(PortfolioEvent::Trade(trade)).unwrap();
    }
    portfolio
}

#[test]
fn matches_disposals_to_fifo_lots_in_euros() {
    let portfolio = fifo_portfolio();
    let projection = portfolio.fifo_tax_projection().unwrap();
    assert_eq!(projection.realized.len(), 2);
    assert_eq!(projection.realized[0].gain_eur, decimal("450.0").unwrap());
    assert_eq!(projection.realized[1].gain_eur, decimal("54.0").unwrap());
    assert_eq!(projection.open_lots[0].remaining_quantity, decimal("3").unwrap());
    assert_eq!(projection.open_lots[0].acquisition_trade_id, "buy-2");
    assert_eq!(balance(&portfolio.realized_gains_by_currency().unwrap(), "USD"), decimal("560").unwrap());
}

#[test]
fn fifo_lots_follow_execution_time_not_recording_order() {
    let mut portfolio = Portfolio::new("p".to_string(), "P".to_string(), Currency::eur()).unwrap();
    let instrument = Instrument::Equity { ticker: "MSFT".to_string() };
    for (id, day, side) in [("sell", 3, TradeSide::Sell), ("buy-late", 2, TradeSide::Buy), ("buy-early", 1, TradeSide::Buy)] {
        let mut trade = Trade::new(
            id.to_string(),
            instrument.clone(),
            side,
            instant(2026, 7, day, 12, 0, 0),
            decimal("1").unwrap(),
            Money::new(decimal("10").unwrap(), Currency::eur()),
        )
        .unwrap();
        trade.fees.clear();
        portfolio.record(PortfolioEvent::Trade(trade)).unwrap();
    }
    let projection = portfolio.fifo_tax_projection().unwrap();
    assert_eq!(projection.realized.len(), 1);
    assert_eq!(projection.realized[0].acquisition_trade_id, "buy-early");
    assert_eq!(projection.open_lots.len(), 1);
    assert_eq!(projection.open_lots[0].acquisition_trade_id, "buy-late");
}

#[test]
fn selling_more_than_the_lots_hold_is_refused() {
    let mut portfolio = Portfolio::new("p".to_string(), "P".to_string(), Currency::eur()).unwrap();
    let trade = Trade::new(
        "short".to_string(),
        Instrument::Equity { ticker: "MSFT".to_string() },
        TradeSide::Sell,
        instant(2026, 7, 1, 12, 0, 0),
        decimal("1").unwrap(),
        Money::new(decimal("10").unwrap(), Currency::eur()),
    )
    .unwrap();
    portfolio.record(PortfolioEvent::Trade(trade)).unwrap();
    assert_eq!(portfolio.fifo_tax_projection(), Err(PortfolioError::UnsupportedShortDisposal("short".to_string())));
    assert_eq!(
        portfolio.realized_gains_by_currency(),
        Err(PortfolioError::UnsupportedShortDisposal("short".to_string()))
    );
}

#[test]
fn gains_refuse_fees_in_another_currency() {
    let mut portfolio = Portfolio::new("p".to_string(), "P".to_string(), Currency::eur()).unwrap();
    let mut trade = Trade::new(
        "buy".to_string(),
        Instrument::Equity { ticker: "MSFT".to_string() },
        TradeSide::Buy,
        instant(2026, 7, 1, 12, 0, 0),
        decimal("1").unwrap(),
        Money::new(decimal("10").unwrap(), Currency::eur()),
    )
    .unwrap();
    trade.fees.push(Money::new(decimal("1").unwrap(), Currency::new("USD").unwrap()));
    portfolio.record(PortfolioEvent::Trade(trade)).unwrap();
    assert_eq!(portfolio.realized_gains_by_currency(), Err(PortfolioError::MixedTradeCurrencies));
}

#[test]
fn valuing_cash_needs_a_rate_for_every_foreign_balance() {
    let mut portfolio = Portfolio::new("p".to_string(), "P".to_string(), Currency::eur()).unwrap();
    portfolio
        .record(PortfolioEvent::CashMovement(
            CashMovement::new(
                "d".to_string(),
                instant(2026, 7, 1, 12, 0, 0),
                CashMovementKind::Deposit,
                Money::new(decimal("10").unwrap(), Currency::new("GBP").unwrap()),
            )
            .unwrap(),
        ))
        .unwrap();
    assert_eq!(
        portfolio.cash_value_in_base(),
        Err(PortfolioError::MissingValuationExchangeRate("GBP".to_string()))
    );
}

#[test]
fn dividends_are_paid_net_of_withholding_tax() {
    let dividend = Dividend {
        id: "div".to_string(),
        instrument: Instrument::Equity { ticker: "MSFT".to_string() },
        paid_at: instant(2026, 7, 1, 12, 0, 0),
        gross: Money::new(decimal("10").unwrap(), Currency::new("USD").unwrap()),
        withholding_tax: Money::new(decimal("1.5").unwrap(), Currency::new("USD").unwrap()),
        tax_rate_to_eur: None,
    };
    assert_eq!(dividend.net().unwrap().amount, decimal("8.5").unwrap());
    let invalid = Dividend {
        withholding_tax: Money::new(decimal("11").unwrap(), Currency::new("USD").unwrap()),
        ..dividend
    };
    assert_eq!(invalid.net(), Err(PortfolioError::InvalidWithholdingTax));
}

#[test]
fn portfolio_errors_have_their_messages() {
    assert_eq!(PortfolioError::DuplicateEventId("x".to_string()).message(), "evento duplicado: x");
    assert_eq!(
        PortfolioError::UnsupportedShortDisposal("s".to_string()).message(),
        "a venda s excede os lotes longos disponíveis"
    );
    assert_eq!(
        PortfolioError::MissingValuationExchangeRate("GBP".to_string()).message(),
        "falta uma taxa para valorizar o saldo em GBP"
    );
    assert_eq!(Currency::new("eu"), Err(PortfolioError::InvalidCurrency("EU".to_string())));
}

#[test]
fn summary_shows_realized_gains_and_no_cash_value_while_positions_are_held() {
    let portfolio = fifo_portfolio();
    let view = summary(&portfolio).unwrap();
    assert_eq!(view.id, "main");
    assert_eq!(view.name, "Principal");
    assert_eq!(view.base_currency, "EUR");
    assert_eq!(view.event_count, 3);
    assert_eq!(view.realized_gain_eur, decimal("504.0").unwrap());
    assert_eq!(view.net_value_eur, None);
    assert_eq!(view.valuation_note, None);
    assert_eq!(balance(&view.realized_gains, "USD"), decimal("560").unwrap());
}

#[test]
fn summary_values_the_cash_of_a_portfolio_without_positions() {
    let mut portfolio = Portfolio::new("p".to_string(), "P".to_string(), Currency::eur()).unwrap();
    portfolio
        .record(PortfolioEvent::CashMovement(
            CashMovement::new(
                "d".to_string(),
                instant(2026, 7, 1, 12, 0, 0),
                CashMovementKind::Deposit,
                Money::new(decimal("125.50").unwrap(), Currency::eur()),
            )
            .unwrap(),
        ))
        .unwrap();
    let view = summary(&portfolio).unwrap();
    assert_eq!(view.net_value_eur, Some(decimal("125.50").unwrap()));
    assert_eq!(view.valuation_note, Some("Caixa convertido pela taxa mais recente registada".to_string()));
    assert_eq!(view.realized_gain_eur, decimal("0").unwrap());
    assert!(view.realized_gains.is_empty());
}

#[test]
fn summary_is_refused_where_the_cash_cannot_be_valued_or_lots_run_short() {
    let mut portfolio = Portfolio::new("p".to_string(), "P".to_string(), Currency::eur()).unwrap();
    portfolio
        .record(PortfolioEvent::CashMovement(
            CashMovement::new(
                "d".to_string(),
                instant(2026, 7, 1, 12, 0, 0),
                CashMovementKind::Deposit,
                Money::new(decimal("10").unwrap(), Currency::new("GBP").unwrap()),
            )
            .unwrap(),
        ))
        .unwrap();
    assert_eq!(summary(&portfolio), Err(PortfolioError::MissingValuationExchangeRate("GBP".to_string())));

    let mut short = Portfolio::new("s".to_string(), "S".to_string(), Currency::eur()).unwrap();
    let trade = Trade::new(
        "short".to_string(),
        Instrument::Equity { ticker: "MSFT".to_string() },
        TradeSide::Sell,
        instant(2026, 7, 1, 12, 0, 0),
        decimal("1").unwrap(),
        Money::new(decimal("10").unwrap(), Currency::eur()),
    )
    .unwrap();
    short.record(PortfolioEvent::Trade(trade)).unwrap();
    assert_eq!(summary(&short), Err(PortfolioError::UnsupportedShortDisposal("short".to_string())));
}

#[test]
fn gross_amounts_keep_the_scales_of_their_factors() {
    let mut trade = usd_trade();
    let gross = trade.gross_amount().amount;
    assert_eq!((gross.mantissa(), gross.scale()), (200150, 2));
    trade.tax_rate_to_eur = Some(
        ExchangeRate::new(
            Currency::new("USD").unwrap(),
            Currency::eur(),
            decimal("0.92").unwrap(),
            date(2026, 7, 17),
            "BCE".to_string(),
        )
        .unwrap(),
    );
    let taxed = trade.gross_amount_for_tax_in_eur().unwrap().amount;
    assert_eq!((taxed.mantissa(), taxed.scale()), (18413800, 4));
}

