use mercado::live_prices::{LivePriceRelay, SessionChangeAction};
use chrono::Datelike;
use chrono::TimeZone;
use mercado::domain::tracked_ticker::UnderlyingMetadata;
use mercado::port::{PortError, UnderlyingResolutionError};
use mercado::time::{CalendarDate, UtcInstant};
use mercado::yahoo::{
    chart_refusal,
    chart_provider_symbol, classify_resolution_status, end_exclusive_timestamp, interval_request,
    map_resolved_underlying, market_hours, normalize_ticker, resolution_status_outcome, start_timestamp,
    stream_symbol, temporary_transport_error, unavailable, update_request, value_at, ChartMeta,
    ResolutionResponse, StreamSubscription, YahooApiError, YahooError, YahooParseError,
};

fn date(year: i32, month: u32, day: u32) -> CalendarDate {
    CalendarDate {
        days_from_ce: chrono::NaiveDate::from_ymd_opt(year, month, day).unwrap().num_days_from_ce(),
    }
}

fn instant(year: i32, month: u32, day: u32, hour: u32) -> UtcInstant {
    UtcInstant {
        micros: chrono::Utc.with_ymd_and_hms(year, month, day, hour, 0, 0).unwrap().timestamp_micros(),
    }
}

fn response_with_symbol(symbol: &str) -> ResolutionResponse {
    ResolutionResponse {
        error: None,
        first_result: Some(ChartMeta {
            symbol: symbol.to_string(),
            currency: Some("USD".to_string()),
            exchange_name: Some("NMS".to_string()),
            exchange_timezone_name: Some("America/New_York".to_string()),
            instrument_type: Some("EQUITY".to_string()),
        }),
    }
}

#[test]
fn rejects_invalid_tickers() {
    assert_eq!(normalize_ticker(""), Err(YahooError::Ticker));
    assert_eq!(normalize_ticker("../AAPL"), Err(YahooError::Ticker));
    assert_eq!(normalize_ticker(" brk-b ").unwrap(), "BRK-B");
}

#[test]
fn makes_end_date_inclusive_for_yahoo() {
    let end_date = date(2025, 1, 31);
    assert_eq!(end_exclusive_timestamp(end_date).unwrap(), 1_738_368_000);
}

#[test]
fn rejects_invalid_date_ranges_before_downloading() {
    let error = interval_request("AAPL", date(2025, 2, 1), date(2025, 1, 31), instant(2025, 3, 1, 12)).unwrap_err();
    assert_eq!(error, YahooError::DateRange);
    assert_eq!(error.message(), "a data inicial não pode ser posterior à data final");
}

#[test]
fn downloads_start_at_midnight_and_end_now() {
    assert_eq!(start_timestamp(date(1970, 1, 2)).unwrap(), 86_400);
    assert_eq!(start_timestamp(date(1969, 12, 31)).unwrap(), -86_400);
    let now = instant(2025, 1, 31, 15);
    let request = update_request(" aapl ", date(2025, 1, 30), now).unwrap();
    assert_eq!(request.symbol, "AAPL");
    assert_eq!(request.period1, 1_738_195_200);
    assert_eq!(request.period2, now.micros / 1_000_000);
    assert_eq!(update_request("AAPL", date(2025, 2, 1), now), Err(YahooError::StartDate));
    assert_eq!(update_request("A/B", date(2025, 1, 1), now), Err(YahooError::Ticker));
}

#[test]
fn interval_downloads_refuse_future_dates() {
    let now = instant(2025, 1, 31, 15);
    assert_eq!(interval_request("AAPL", date(2025, 2, 2), date(2025, 2, 3), now), Err(YahooError::StartDate));
    assert_eq!(interval_request("AAPL", date(2025, 1, 2), date(2025, 2, 3), now), Err(YahooError::EndDate));
    let request = interval_request("aapl", date(2025, 1, 30), date(2025, 1, 31), now).unwrap();
    assert_eq!((request.period1, request.period2), (1_738_195_200, 1_738_368_000));
}

#[test]
fn maps_internal_index_symbols_to_yahoo() {
    assert_eq!(stream_symbol("SPX"), "^GSPC");
    assert_eq!(stream_symbol("VIX"), "^VIX");
    assert_eq!(stream_symbol("BRK.B"), "BRK-B");
    assert_eq!(stream_symbol("AAPL"), "AAPL");
}

#[test]
fn keeps_public_identity_while_matching_explicit_provider_symbols() {
    for (input, public_ticker, provider_symbol) in
        [(" msft ", "MSFT", "MSFT"), (" brk.b ", "BRK.B", "BRK-B"), (" spx ", "SPX", "^GSPC")]
    {
        let normalized = normalize_ticker(input).unwrap();
        assert_eq!(normalized, public_ticker);
        assert_eq!(chart_provider_symbol(&normalized), provider_symbol);
        let resolved =
            map_resolved_underlying(&normalized, provider_symbol, response_with_symbol(provider_symbol)).unwrap();
        assert_eq!(resolved.ticker, public_ticker);
        assert_eq!(
            resolved.metadata,
            UnderlyingMetadata {
                currency: Some("USD".to_string()),
                exchange: Some("NMS".to_string()),
                timezone: Some("America/New_York".to_string()),
                instrument_type: Some("EQUITY".to_string()),
            }
        );
    }
}

#[test]
fn rejects_a_genuinely_different_provider_symbol() {
    assert!(matches!(
        map_resolved_underlying("MSFT", "MSFT", response_with_symbol("AAPL")),
        Err(UnderlyingResolutionError::InvalidProviderResponse(_))
    ));
}

#[test]
fn reports_provider_errors_and_missing_results() {
    let not_found = ResolutionResponse {
        error: Some(YahooApiError { code: "Not Found".to_string(), description: "No data found".to_string() }),
        first_result: None,
    };
    assert_eq!(
        map_resolved_underlying("ZZZ", "ZZZ", not_found),
        Err(UnderlyingResolutionError::NotFound("underlying ZZZ was not found: No data found".to_string()))
    );
    let other = ResolutionResponse {
        error: Some(YahooApiError { code: "Bad Request".to_string(), description: "oops".to_string() }),
        first_result: None,
    };
    assert_eq!(
        map_resolved_underlying("ZZZ", "ZZZ", other),
        Err(UnderlyingResolutionError::InvalidProviderResponse("Yahoo API error Bad Request: oops".to_string()))
    );
    assert_eq!(
        map_resolved_underlying("ZZZ", "ZZZ", ResolutionResponse { error: None, first_result: None }),
        Err(UnderlyingResolutionError::InvalidProviderResponse(
            "Yahoo response did not contain a chart result".to_string()
        ))
    );
    assert!(map_resolved_underlying("MSFT", "MSFT", response_with_symbol(" msft ")).is_ok());
}

#[test]
fn classifies_not_found_rate_limit_and_server_errors() {
    for (status, expected) in
        [(404, "not_found"), (429, "temporary"), (408, "temporary"), (500, "temporary"), (503, "temporary")]
    {
        let error = classify_resolution_status(status, "MSFT").unwrap_err();
        assert!(matches!(
            (expected, error),
            ("not_found", UnderlyingResolutionError::NotFound(_))
                | ("temporary", UnderlyingResolutionError::TemporarilyUnavailable(_))
        ));
    }
}

#[test]
fn status_messages_name_the_ticker_and_the_status() {
    assert_eq!(
        classify_resolution_status(404, "MSFT"),
        Err(UnderlyingResolutionError::NotFound("underlying MSFT was not found".to_string()))
    );
    assert_eq!(
        classify_resolution_status(429, "MSFT"),
        Err(UnderlyingResolutionError::TemporarilyUnavailable("Yahoo returned HTTP 429 Too Many Requests".to_string()))
    );
    assert_eq!(
        classify_resolution_status(301, "MSFT"),
        Err(UnderlyingResolutionError::InvalidProviderResponse(
            "Yahoo returned unexpected HTTP 301 Moved Permanently".to_string()
        ))
    );
    assert_eq!(classify_resolution_status(200, "MSFT"), Ok(()));
    assert_eq!(resolution_status_outcome(204, "204 No Content", "MSFT"), Ok(()));
}

#[test]
fn classifies_transport_errors_as_temporary_and_invalid_json_as_incompatible() {
    let error = temporary_transport_error("request timed out".into());
    assert!(matches!(error, UnderlyingResolutionError::TemporarilyUnavailable(_)));
    let error = temporary_transport_error("connection reset".into());
    assert!(matches!(error, UnderlyingResolutionError::TemporarilyUnavailable(_)));
}

#[test]
fn provider_failures_are_unavailability() {
    assert_eq!(unavailable("timeout"), PortError::Unavailable("timeout".to_string()));
}

#[test]
fn values_at_missing_positions_are_absent() {
    let values = [Some(1.5_f64), None];
    assert_eq!(value_at(&values, 0), Some(1.5));
    assert_eq!(value_at(&values, 1), None);
    assert_eq!(value_at(&values, 2), None);
}

#[test]
fn regular_sessions_are_flagged_whatever_the_case() {
    assert_eq!(market_hours(&Some("regular".to_string())), 1);
    assert_eq!(market_hours(&Some("CLOSED".to_string())), 0);
    assert_eq!(market_hours(&None), 0);
}

#[test]
fn stream_subscription_follows_symbol_changes() {
    let (mut subscription, frame) = StreamSubscription::open(" spx ").unwrap();
    assert_eq!(frame, r#"{"subscribe":["^GSPC"]}"#);
    assert_eq!(subscription.ticker, "SPX");
    assert_eq!(subscription.heartbeat(), r#"{"subscribe":["^GSPC"]}"#);
    assert_eq!(subscription.accept("^GSPC", 1), Some("SPX".to_string()));
    assert_eq!(subscription.accept("^GSPC", 0), None);
    assert_eq!(subscription.accept("AAPL", 1), None);
    assert_eq!(subscription.change("spx"), Ok(vec![]));
    assert_eq!(
        subscription.change("aapl"),
        Ok(vec![r#"{"unsubscribe":["^GSPC"]}"#.to_string(), r#"{"subscribe":["AAPL"]}"#.to_string()])
    );
    assert_eq!(subscription.symbol, "AAPL");
    assert_eq!(subscription.change("a b"), Err(YahooError::Ticker));
    assert_eq!(subscription.symbol, "AAPL");
    assert!(StreamSubscription::open("").is_err());
}

#[test]
fn parse_errors_have_their_messages() {
    assert_eq!(YahooParseError::InvalidTimestamp(-5).message(), "timestamp Yahoo inválido: -5");
    assert_eq!(
        YahooParseError::Api { code: "X".to_string(), description: "y".to_string() }.message(),
        "erro da API Yahoo (X): y"
    );
    assert_eq!(YahooParseError::EmptyResponse.message(), "a API Yahoo não devolveu dados");
}

#[test]
fn a_closing_session_resends_the_last_price_outside_market_hours() {
    let mut relay = LivePriceRelay::new(true);
    assert_eq!(relay.session_changed(true), SessionChangeAction::Nothing);
    assert_eq!(relay.price_received(true), 1);
    assert_eq!(relay.session_changed(false), SessionChangeAction::ResendLastAsClosed);
    assert_eq!(relay.session_changed(false), SessionChangeAction::Nothing);
    assert_eq!(relay.price_received(false), 0);
    assert_eq!(relay.session_changed(true), SessionChangeAction::Nothing);
}

#[test]
fn a_session_closing_before_any_price_fetches_one() {
    let mut relay = LivePriceRelay::new(true);
    assert_eq!(relay.session_changed(false), SessionChangeAction::FetchAndSendAsClosed);
    let mut closed = LivePriceRelay::new(false);
    assert_eq!(closed.session_changed(false), SessionChangeAction::Nothing);
}

#[test]
fn chart_answers_are_refused_api_error_first() {
    let api = || Some(YahooApiError { code: "Not Found".to_string(), description: "No data".to_string() });
    assert_eq!(
        chart_refusal(api(), false, false),
        Some(YahooParseError::Api { code: "Not Found".to_string(), description: "No data".to_string() })
    );
    assert_eq!(chart_refusal(None, false, false), Some(YahooParseError::EmptyResponse));
    assert_eq!(chart_refusal(None, true, false), Some(YahooParseError::MissingQuotes));
    assert_eq!(chart_refusal(None, true, true), None);
}
