use chrono::Datelike;
use mercado::application::option_snapshot_enrichment::{
    enrichment_outcome, incompatible_identity_set, same_identity_set, single_evidenced_currency,
};
use mercado::domain::option_volatility::{is_adjusted_root, is_eligible_constant_maturity, is_pm_settlement};
use mercado::domain::options::{
    bounded_diagnostic_text, parse_occ_symbol, OccFields, OccSymbolError, OptionIngestionDiagnostics,
    OptionIngestionWarning, OptionType,
    DIAGNOSTIC_TEXT_LIMIT, INGESTION_WARNING_SAMPLE_LIMIT, INVALID_OCC_SYMBOL_SAMPLE_LIMIT,
};
use mercado::application::simulation::{
    curve_label, default_expiration, matched_legs, pricing_model_note, scenario_dates, simulation_leg_side,
    strategy_expiration, LegRequest,
};
use mercado::domain::simulation::SimulationTradeSide;
use mercado::port::PortError;
use mercado::time::CalendarDate;

fn date(year: i32, month: u32, day: u32) -> CalendarDate {
    CalendarDate {
        days_from_ce: chrono::NaiveDate::from_ymd_opt(year, month, day).unwrap().num_days_from_ce(),
    }
}

#[test]
fn underlying_currency_requires_one_currency_on_every_contract() {
    assert_eq!(single_evidenced_currency(&[Some("USD"), Some("USD"), Some("USD")]), Some("USD".to_string()));
    assert_eq!(single_evidenced_currency(&[Some("USD"), Some("EUR"), Some("USD")]), None);
    assert_eq!(single_evidenced_currency(&[Some("EUR"), Some("USD"), Some("USD")]), None);
    assert_eq!(single_evidenced_currency(&[Some("USD"), None, Some("USD")]), None);
}

#[test]
fn no_contracts_evidence_no_currency() {
    assert_eq!(single_evidenced_currency(&[]), None);
    assert_eq!(
        mercado::application::synchronization::single_evidenced_currency(&[Some("EUR")]),
        Some("EUR".to_string())
    );
}

#[test]
fn distinguishes_standard_spx_am_from_spxw_pm_settlement() {
    assert!(!is_pm_settlement("SPX"));
    assert!(is_pm_settlement("SPXW"));
    assert!(is_pm_settlement("SPY"));
    assert!(!is_pm_settlement("spx"));
}

#[test]
fn identifies_roots_ending_in_digits_as_adjusted() {
    assert!(is_adjusted_root("IBM1"));
    assert!(is_adjusted_root("AAPL12"));
    assert!(!is_adjusted_root("IBM"));
    assert!(!is_adjusted_root("SPXW"));
    assert!(!is_adjusted_root(""));
}

#[test]
fn prefers_the_primary_root_over_a_variant_on_the_same_friday() {
    let monthly_expiration = date(2026, 8, 21);
    let weekly_expiration = date(2026, 8, 28);
    let maturities = vec![
        (monthly_expiration, "SPX".to_string()),
        (monthly_expiration, "SPXW".to_string()),
        (weekly_expiration, "SPXW".to_string()),
    ];
    assert!(is_eligible_constant_maturity(maturities[0].0, &maturities[0].1, &maturities));
    assert!(!is_eligible_constant_maturity(maturities[1].0, &maturities[1].1, &maturities));
    assert!(is_eligible_constant_maturity(maturities[2].0, &maturities[2].1, &maturities));
}

#[test]
fn only_friday_expirations_are_eligible() {
    let thursday = date(2026, 8, 20);
    let maturities = vec![(thursday, "SPX".to_string())];
    assert!(!is_eligible_constant_maturity(thursday, "SPX", &maturities));
    assert!(is_eligible_constant_maturity(date(1, 1, 5), "SPX", &Vec::new()));
    assert!(!is_eligible_constant_maturity(date(1, 1, 4), "SPX", &Vec::new()));
}

#[test]
fn limits_invalid_occ_symbol_samples_while_preserving_the_total() {
    let mut diagnostics = OptionIngestionDiagnostics::default();
    for index in 0..100 {
        diagnostics.record_invalid_occ_symbol(format!("invalid-{index}-{}", "x".repeat(1_000)));
    }
    assert_eq!(diagnostics.invalid_occ_symbol_count, 100);
    assert_eq!(diagnostics.invalid_occ_symbol_samples.len(), INVALID_OCC_SYMBOL_SAMPLE_LIMIT);
    assert!(diagnostics.invalid_occ_symbol_samples[0].len() <= DIAGNOSTIC_TEXT_LIMIT);
}

#[test]
fn limits_typed_warning_samples_and_root_length() {
    let mut diagnostics = OptionIngestionDiagnostics::default();
    for index in 0..100 {
        diagnostics.record_warning(OptionIngestionWarning::ContractSpecificationUnavailable {
            root: format!("{index}-{}", "x".repeat(1_000)),
        });
    }
    assert_eq!(diagnostics.warning_count, 100);
    assert_eq!(diagnostics.warnings.len(), INGESTION_WARNING_SAMPLE_LIMIT);
    let OptionIngestionWarning::ContractSpecificationUnavailable { root } = &diagnostics.warnings[0] else {
        panic!("expected root warning");
    };
    assert!(root.chars().count() <= DIAGNOSTIC_TEXT_LIMIT);
}

#[test]
fn counts_saturate_at_the_largest_value() {
    let mut diagnostics = OptionIngestionDiagnostics::default();
    assert!(diagnostics.is_empty());
    diagnostics.warning_count = u64::MAX;
    diagnostics.record_warning(OptionIngestionWarning::ProviderTimestampTimezoneUnverified);
    assert_eq!(diagnostics.warning_count, u64::MAX);
    assert_eq!(diagnostics.warnings, vec![OptionIngestionWarning::ProviderTimestampTimezoneUnverified]);
    assert!(!diagnostics.is_empty());
}

#[test]
fn diagnostic_text_keeps_the_first_characters() {
    let text = "é".repeat(200);
    let bounded = bounded_diagnostic_text(text);
    assert_eq!(bounded.chars().count(), DIAGNOSTIC_TEXT_LIMIT);
    assert_eq!(bounded_diagnostic_text("short".to_string()), "short");
}

#[test]
fn option_types_have_their_names() {
    assert_eq!(OptionType::Call.label(), "Call");
    assert_eq!(OptionType::Put.label(), "Put");
}

#[test]
fn incompatible_identity_sets_are_unavailability() {
    assert_eq!(
        incompatible_identity_set(),
        PortError::Unavailable("contract specification resolver returned an incompatible identity set".to_string())
    );
}

#[test]
fn enrichment_lists_unresolved_roots_and_the_evidenced_currency() {
    let usd = || Some("USD".to_string());
    let chains = vec![
        ("SPXW".to_string(), vec![usd(), None]),
        ("SPX".to_string(), vec![usd()]),
        ("SPXW".to_string(), vec![None]),
        ("AAA".to_string(), vec![None]),
    ];
    let outcome = enrichment_outcome(&chains);
    assert_eq!(outcome.unresolved_roots, vec!["AAA".to_string(), "SPXW".to_string()]);
    assert_eq!(outcome.underlying_currency, None);

    let resolved = vec![("SPX".to_string(), vec![usd(), usd()]), ("SPXW".to_string(), vec![usd()])];
    let outcome = enrichment_outcome(&resolved);
    assert!(outcome.unresolved_roots.is_empty());
    assert_eq!(outcome.underlying_currency, Some("USD".to_string()));

    let mixed = vec![("SPX".to_string(), vec![usd(), Some("EUR".to_string())])];
    assert_eq!(enrichment_outcome(&mixed).underlying_currency, None);
    assert_eq!(enrichment_outcome(&Vec::new()).underlying_currency, None);
}

#[test]
fn normalizes_requested_scenario_dates() {
    let start = date(2026, 7, 17);
    let expiration = date(2026, 8, 14);
    let requested = [expiration, start, expiration];

    let dates = scenario_dates(start, expiration, Some(&requested)).expect("valid dates");

    assert_eq!(dates, vec![start, expiration]);
}

#[test]
fn rejects_scenario_dates_after_expiration() {
    let start = date(2026, 7, 17);
    let expiration = date(2026, 8, 14);
    let requested = [CalendarDate { days_from_ce: expiration.days_from_ce + 1 }];

    assert!(scenario_dates(start, expiration, Some(&requested)).is_err());
}

#[test]
fn scenario_dates_default_to_valuation_weeks_and_expiration() {
    let start = date(2026, 7, 17);
    let expiration = date(2026, 8, 14);
    let dates = scenario_dates(start, expiration, None).expect("valid dates");
    assert_eq!(dates, vec![start, date(2026, 7, 24), date(2026, 7, 31), expiration]);

    let empty: [CalendarDate; 0] = [];
    assert_eq!(scenario_dates(start, expiration, Some(&empty)), Ok(dates));

    let near = date(2026, 7, 27);
    assert_eq!(
        scenario_dates(start, near, None),
        Ok(vec![start, date(2026, 7, 24), near])
    );
}

#[test]
fn scenario_dates_refuse_a_day_before_valuation_with_its_message() {
    let start = date(2026, 7, 17);
    let expiration = date(2026, 8, 14);
    let requested = [date(2026, 7, 16)];
    assert_eq!(
        scenario_dates(start, expiration, Some(&requested)),
        Err(PortError::InvalidRequest("data de simulação fora do intervalo da estratégia".to_string()))
    );
}

#[test]
fn default_expiration_is_the_future_one_nearest_a_month_out() {
    let valuation = date(2026, 7, 17);
    let expirations = [
        date(2026, 7, 17),
        date(2026, 8, 21),
        date(2026, 8, 14),
        date(2026, 9, 18),
        date(2026, 8, 12),
    ];
    // 35, 28, 63 and 26 days out: 28 is nearest to 30.
    assert_eq!(default_expiration(valuation, &expirations), Ok(date(2026, 8, 14)));
    // 28 and 32 days out are equally near: the first listed wins.
    let tied = [date(2026, 8, 18), date(2026, 8, 14)];
    assert_eq!(default_expiration(valuation, &tied), Ok(date(2026, 8, 18)));
    assert_eq!(
        default_expiration(valuation, &[date(2026, 7, 17), date(2026, 7, 1)]),
        Err(PortError::NotFound("expiração do ativo indisponível".to_string()))
    );
}

#[test]
fn strategy_expiration_is_the_earliest_leg_expiration() {
    let default = date(2026, 8, 14);
    assert_eq!(strategy_expiration(default, &[]), default);
    assert_eq!(
        strategy_expiration(default, &[date(2026, 9, 18), date(2026, 8, 21), date(2026, 10, 16)]),
        date(2026, 8, 21)
    );
}

fn leg(symbol: &str, quantity: u32, usable: bool) -> LegRequest {
    LegRequest { occ_symbol: symbol.to_string(), quantity, entry_price_usable: usable }
}

#[test]
fn requested_legs_are_matched_to_the_chain() {
    let chain = vec!["A".to_string(), "B".to_string(), "A".to_string()];
    assert_eq!(matched_legs(&[leg("B", 1, true), leg("A", 2, true)], &chain), Ok(vec![1, 0]));
    assert_eq!(matched_legs(&[], &chain), Ok(vec![]));
    assert_eq!(
        matched_legs(&[leg("A", 0, true), leg("Z", 1, true)], &chain),
        Err(PortError::InvalidRequest("perna da estratégia inválida".to_string()))
    );
    assert_eq!(
        matched_legs(&[leg("Z", 1, true), leg("A", 1, false)], &chain),
        Err(PortError::InvalidRequest("contrato não existe no snapshot".to_string()))
    );
    assert_eq!(
        matched_legs(&[leg("A", 1, true), leg("A", 1, false)], &chain),
        Err(PortError::InvalidRequest("perna da estratégia inválida".to_string()))
    );
}

#[test]
fn scenario_curves_are_captioned_by_their_day() {
    let valuation = date(2026, 7, 17);
    let expiration = date(2026, 8, 14);
    assert_eq!(curve_label(expiration, expiration, valuation, true), "Vencimento");
    assert_eq!(curve_label(expiration, expiration, valuation, false), "1.º vencimento");
    assert_eq!(curve_label(valuation, expiration, valuation, true), "Data inicial");
    assert_eq!(curve_label(date(2026, 7, 24), expiration, valuation, true), "24/07");
    assert_eq!(curve_label(date(2026, 12, 3), expiration, valuation, false), "03/12");
}

#[test]
fn only_spx_is_priced_as_european() {
    assert_eq!(pricing_model_note("SPX"), "Black–Scholes · opção europeia");
    assert_eq!(
        pricing_model_note("spx"),
        "Black–Scholes provisório · exercício americano ainda não modelado"
    );
    assert_eq!(
        pricing_model_note("AAPL"),
        "Black–Scholes provisório · exercício americano ainda não modelado"
    );
}

#[test]
fn leg_sides_follow_the_sign_of_the_quantity() {
    assert_eq!(simulation_leg_side(3), (SimulationTradeSide::Buy, 3));
    assert_eq!(simulation_leg_side(-2), (SimulationTradeSide::Sell, 2));
    assert_eq!(simulation_leg_side(0), (SimulationTradeSide::Sell, 0));
    assert_eq!(simulation_leg_side(i32::MIN), (SimulationTradeSide::Sell, 2_147_483_648));
}

fn identity(root: &str, symbol: &str) -> (String, String) {
    (root.to_string(), symbol.to_string())
}

#[test]
fn resolved_contracts_must_be_exactly_those_requested() {
    let requested = [identity("SPX", "A"), identity("SPXW", "B")];
    assert!(same_identity_set(&requested, &[identity("SPXW", "B"), identity("SPX", "A")]));
    assert!(same_identity_set(&requested, &[identity("SPXW", "B"), identity("SPX", "A"), identity("SPX", "A")]));
    assert!(!same_identity_set(&requested, &[identity("SPX", "A")]));
    assert!(!same_identity_set(&requested, &[identity("SPX", "A"), identity("SPXW", "B"), identity("SPX", "C")]));
    assert!(!same_identity_set(&requested, &[identity("SPX", "A"), identity("SPX", "B")]));
    assert!(same_identity_set(&[], &[]));
}

#[test]
fn occ_symbols_are_read_field_by_field() {
    assert_eq!(
        parse_occ_symbol("SPXW  260821C05000000"),
        Ok(OccFields {
            root: "SPXW".to_string(),
            expiration: date(2026, 8, 21),
            option_type: OptionType::Call,
            strike_field: "05000000".to_string(),
        })
    );
    let put = parse_occ_symbol("IBM260814P00220000").unwrap();
    assert_eq!(put.root, "IBM");
    assert_eq!(put.expiration, date(2026, 8, 14));
    assert_eq!(put.option_type, OptionType::Put);
    assert_eq!(put.strike_field, "00220000");
    assert_eq!(parse_occ_symbol(" AAPL 260821C00150000").unwrap().root, "AAPL");
}

#[test]
fn malformed_occ_symbols_are_refused() {
    for symbol in [
        "",
        "260821C05000000",
        "IBM260814X00220000",
        "IBM261399C00220000",
        "IBM2608é4C00220000",
        "IBM260814Cé0220000",
    ] {
        assert_eq!(parse_occ_symbol(symbol), Err(OccSymbolError), "{symbol}");
    }
}

#[test]
fn occ_expirations_follow_the_gregorian_calendar() {
    assert_eq!(parse_occ_symbol("SPY240229C00500000").unwrap().expiration, date(2024, 2, 29));
    assert_eq!(parse_occ_symbol("SPY250229C00500000"), Err(OccSymbolError));
    assert_eq!(parse_occ_symbol("SPY260431C00500000"), Err(OccSymbolError));
    assert_eq!(parse_occ_symbol("SPY991231C00500000").unwrap().expiration, date(1999, 12, 31));
    assert_eq!(parse_occ_symbol("SPY690101C00500000").unwrap().expiration, date(2069, 1, 1));
    assert_eq!(parse_occ_symbol("SPY700101C00500000").unwrap().expiration, date(1970, 1, 1));
}
