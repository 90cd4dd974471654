//! The rules of the Yahoo Finance adapter: which symbols it asks for, which periods it
//! downloads, how it reads a resolution answer and how it follows a price stream.

use vstd::prelude::*;
use vstd::string::*;

use crate::domain::tracked_ticker::{ResolvedUnderlying, UnderlyingMetadata};
use crate::port::{PortError, UnderlyingResolutionError};
use crate::text::{
    all_chars_in_class, all_in_class, append, lemma_class_text_fixed, lemma_upper_idempotent, plain_extras, chars_of, eq_ignore_ascii_case, int_digits, int_text,
    joined, same_ignoring_ascii_case, same_text, string_from, trim, trim_upper, trimmed, upper,
};
use crate::time::{floor_div, CalendarDate, UtcInstant, MAX_DAYS_FROM_CE};

verus! {

/// Why a download request was refused before anything was sent.
#[derive(Debug, Clone, Copy, PartialEq, Eq, Structural)]
pub enum YahooError {
    Ticker,
    StartDate,
    EndDate,
    DateRange,
}

impl YahooError {
    /// The text the error is shown with.
    pub fn message(&self) -> (r: &'static str)
        ensures
            r@ == match self {
                YahooError::Ticker => "ticker inválido"@,
                YahooError::StartDate => "a data inicial não pode estar no futuro"@,
                YahooError::EndDate => "a data final não pode estar no futuro"@,
                YahooError::DateRange => "a data inicial não pode ser posterior à data final"@,
            },
    {
        match self {
            YahooError::Ticker => "ticker inválido",
            YahooError::StartDate => "a data inicial não pode estar no futuro",
            YahooError::EndDate => "a data final não pode estar no futuro",
            YahooError::DateRange => "a data inicial não pode ser posterior à data final",
        }
    }
}

/// An error that the chart API reports in its answer.
#[derive(Debug, Clone, PartialEq, Eq)]
pub struct YahooApiError {
    pub code: String,
    pub description: String,
}

/// Why a chart answer could not be read as a market history.
#[derive(Debug, Clone, PartialEq, Eq)]
pub enum YahooParseError {
    Api { code: String, description: String },
    EmptyResponse,
    MissingQuotes,
    InvalidTimestamp(i64),
}

impl YahooParseError {
    /// The text the error is shown with.
    pub fn message(&self) -> (r: String)
        ensures
            r@ == match self {
                YahooParseError::Api { code, description } => "erro da API Yahoo ("@ + code@ + "): "@
                    + description@,
                YahooParseError::EmptyResponse => "a API Yahoo não devolveu dados"@,
                YahooParseError::MissingQuotes => "a resposta Yahoo não contém cotações"@,
                YahooParseError::InvalidTimestamp(t) => "timestamp Yahoo inválido: "@ + int_text(
                    *t as int,
                ),
            },
    {
        match self {
            YahooParseError::Api { code, description } => {
                let mut r = joined("erro da API Yahoo (", code.as_str(), "): ");
                append(&mut r, description.as_str());
                r
            },
            YahooParseError::EmptyResponse => String::from_str("a API Yahoo não devolveu dados"),
            YahooParseError::MissingQuotes => String::from_str("a resposta Yahoo não contém cotações"),
            YahooParseError::InvalidTimestamp(t) => {
                let mut r = String::from_str("timestamp Yahoo inválido: ");
                append(&mut r, int_digits(*t).as_str());
                r
            },
        }
    }
}

/// Why a chart answer is refused before its quotes are read: an error the API
/// reports comes first, then an answer without a result, then a result without
/// quotes; `None` when the answer can be read.
pub fn chart_refusal(api_error: Option<YahooApiError>, has_result: bool, has_quotes: bool) -> (r: Option<
    YahooParseError,
>)
    ensures
        r == match api_error {
            Some(e) => Some(YahooParseError::Api { code: e.code, description: e.description }),
            None => if !has_result {
                Some(YahooParseError::EmptyResponse)
            } else if !has_quotes {
                Some(YahooParseError::MissingQuotes)
            } else {
                None
            },
        },
{
    match api_error {
        Some(e) => Some(YahooParseError::Api { code: e.code, description: e.description }),
        None => if !has_result {
            Some(YahooParseError::EmptyResponse)
        } else if !has_quotes {
            Some(YahooParseError::MissingQuotes)
        } else {
            None
        },
    }
}

/// The characters a Yahoo symbol may hold besides ASCII letters and digits.
pub open spec fn symbol_extras() -> Seq<char> {
    seq!['.', '-', '^', '=', '_']
}

/// The symbol asked for: trimmed and upper-cased, where it is not empty and holds only ASCII
/// letters, digits and `. - ^ = _`.
pub open spec fn spec_normalize_ticker(ticker: Seq<char>) -> Option<Seq<char>> {
    let t = trimmed(ticker);
    if t.len() > 0 && all_in_class(t, symbol_extras()) {
        Some(upper(t))
    } else {
        None
    }
}

/// A symbol that was checked checks again to itself.
pub proof fn lemma_normalize_ticker_idempotent(ticker: Seq<char>)
    requires
        spec_normalize_ticker(ticker) is Some,
    ensures
        spec_normalize_ticker(spec_normalize_ticker(ticker)->0) == spec_normalize_ticker(ticker),
{
    let t = trimmed(ticker);
    assert(plain_extras(symbol_extras()));
    lemma_class_text_fixed(t, symbol_extras());
    lemma_class_text_fixed(upper(t), symbol_extras());
    lemma_upper_idempotent(t);
}

/// Checks a ticker before it goes into a request path.
pub fn normalize_ticker(ticker: &str) -> (r: Result<String, YahooError>)
    ensures
        match r {
            Ok(t) => spec_normalize_ticker(ticker@) == Some(t@),
            Err(e) => spec_normalize_ticker(ticker@) is None && e == YahooError::Ticker,
        },
{
    let t = trim(&chars_of(ticker));
    proof {
        reveal_strlit(".-^=_");
        assert(".-^=_"@ =~= symbol_extras());
    }
    if t.len() == 0 || !all_chars_in_class(&t, ".-^=_") {
        return Err(YahooError::Ticker);
    }
    Ok(string_from(&crate::text::to_upper(&t)))
}

/// Days from 0001-01-01 (day 1) to 1970-01-01.
pub const UNIX_EPOCH_DAYS_FROM_CE: i64 = 719_163;

/// The Unix time of midnight UTC at the start of a day.
pub open spec fn day_start(date: CalendarDate) -> int {
    (date.days_from_ce - UNIX_EPOCH_DAYS_FROM_CE) * 86_400
}

/// The calendar day, in UTC, of an instant.
pub open spec fn utc_day(now: UtcInstant) -> int {
    now.micros as int / 86_400_000_000 + UNIX_EPOCH_DAYS_FROM_CE
}

/// The first second of a day, as the start of a download period.
pub fn start_timestamp(date: CalendarDate) -> (r: Result<i64, YahooError>)
    ensures
        r == Ok::<i64, YahooError>(day_start(date) as i64),
{
    Ok((date.days_from_ce as i64 - UNIX_EPOCH_DAYS_FROM_CE) * 86_400)
}

/// The first second after a day, as the exclusive end of a download period; refused for the
/// last day a date can name.
pub fn end_exclusive_timestamp(date: CalendarDate) -> (r: Result<i64, YahooError>)
    requires
        date.is_valid(),
    ensures
        date.days_from_ce < MAX_DAYS_FROM_CE ==> r == Ok::<i64, YahooError>((day_start(date) + 86_400) as i64),
        date.days_from_ce == MAX_DAYS_FROM_CE ==> r == Err::<i64, YahooError>(YahooError::EndDate),
{
    if date.days_from_ce >= MAX_DAYS_FROM_CE {
        return Err(YahooError::EndDate);
    }
    Ok((date.days_from_ce as i64 + 1 - UNIX_EPOCH_DAYS_FROM_CE) * 86_400)
}

/// The day of an instant, in UTC.
pub fn day_of(now: UtcInstant) -> (r: i64)
    ensures
        r == utc_day(now),
{
    floor_div(now.micros, 86_400_000_000) + UNIX_EPOCH_DAYS_FROM_CE
}

/// The Unix time of an instant, in whole seconds.
pub open spec fn unix_seconds(now: UtcInstant) -> int {
    now.micros as int / 1_000_000
}

/// What a chart download asks for: the provider symbol and the period, in Unix seconds.
#[derive(Debug, Clone, PartialEq, Eq)]
pub struct ChartRequest {
    pub symbol: String,
    pub period1: i64,
    pub period2: i64,
}

/// A request for the symbol over the period, once the ticker is checked.
pub open spec fn request_for(ticker: Seq<char>, period1: int, period2: int, r: Result<ChartRequest, YahooError>) -> bool {
    match spec_normalize_ticker(ticker) {
        None => r == Err::<ChartRequest, YahooError>(YahooError::Ticker),
        Some(t) => r matches Ok(q) && q.symbol@ == t && q.period1 == period1 && q.period2 == period2,
    }
}

fn chart_request(ticker: &str, period1: i64, period2: i64) -> (r: Result<ChartRequest, YahooError>)
    ensures
        request_for(ticker@, period1 as int, period2 as int, r),
{
    let symbol = normalize_ticker(ticker)?;
    Ok(ChartRequest { symbol, period1, period2 })
}

/// The download of the history from `start` until now: refused when `start` is after
/// today, then for an invalid ticker.
pub fn update_request(ticker: &str, start: CalendarDate, now: UtcInstant) -> (r: Result<ChartRequest, YahooError>)
    ensures
        start.days_from_ce > utc_day(now) ==> r == Err::<ChartRequest, YahooError>(YahooError::StartDate),
        start.days_from_ce <= utc_day(now) ==> request_for(ticker@, day_start(start), unix_seconds(now), r),
{
    if start.days_from_ce as i64 > day_of(now) {
        return Err(YahooError::StartDate);
    }
    let period1 = start_timestamp(start)?;
    chart_request(ticker, period1, floor_div(now.micros, 1_000_000))
}

/// The download of the whole history up to and including `end`: refused when `end` is after
/// today, then for an invalid ticker.
pub fn initial_request(ticker: &str, end: CalendarDate, now: UtcInstant) -> (r: Result<ChartRequest, YahooError>)
    requires
        end.is_valid(),
    ensures
        end.days_from_ce > utc_day(now) || end.days_from_ce == MAX_DAYS_FROM_CE ==> r == Err::<
            ChartRequest,
            YahooError,
        >(YahooError::EndDate),
        end.days_from_ce <= utc_day(now) && end.days_from_ce < MAX_DAYS_FROM_CE ==> request_for(
            ticker@,
            0,
            day_start(end) + 86_400,
            r,
        ),
{
    if end.days_from_ce as i64 > day_of(now) {
        return Err(YahooError::EndDate);
    }
    let period2 = end_exclusive_timestamp(end)?;
    chart_request(ticker, 0, period2)
}

/// The download of the days from `start` to `end`, both included: refused when `start` is
/// after `end`, then when `start` and then when `end` is after today, then for an invalid
/// ticker.
pub fn interval_request(ticker: &str, start: CalendarDate, end: CalendarDate, now: UtcInstant) -> (r: Result<
    ChartRequest,
    YahooError,
>)
    requires
        end.is_valid(),
    ensures
        start.days_from_ce > end.days_from_ce ==> r == Err::<ChartRequest, YahooError>(YahooError::DateRange),
        start.days_from_ce <= end.days_from_ce && start.days_from_ce > utc_day(now) ==> r == Err::<
            ChartRequest,
            YahooError,
        >(YahooError::StartDate),
        start.days_from_ce <= end.days_from_ce && start.days_from_ce <= utc_day(now) && (end.days_from_ce
            > utc_day(now) || end.days_from_ce == MAX_DAYS_FROM_CE) ==> r == Err::<ChartRequest, YahooError>(
            YahooError::EndDate,
        ),
        start.days_from_ce <= end.days_from_ce && end.days_from_ce <= utc_day(now) && end.days_from_ce
            < MAX_DAYS_FROM_CE ==> request_for(ticker@, day_start(start), day_start(end) + 86_400, r),
{
    if start.days_from_ce > end.days_from_ce {
        return Err(YahooError::DateRange);
    }
    let today = day_of(now);
    if start.days_from_ce as i64 > today {
        return Err(YahooError::StartDate);
    }
    if end.days_from_ce as i64 > today {
        return Err(YahooError::EndDate);
    }
    let period1 = start_timestamp(start)?;
    let period2 = end_exclusive_timestamp(end)?;
    chart_request(ticker, period1, period2)
}

/// The chart symbol of a public ticker: Yahoo names Berkshire B `BRK-B` and the S&P 500
/// `^GSPC`.
pub open spec fn spec_chart_provider_symbol(ticker: Seq<char>) -> Seq<char> {
    if ticker == "BRK.B"@ {
        "BRK-B"@
    } else if ticker == "SPX"@ {
        "^GSPC"@
    } else {
        ticker
    }
}

pub fn chart_provider_symbol(ticker: &str) -> (r: String)
    ensures
        r@ == spec_chart_provider_symbol(ticker@),
{
    if same_text(ticker, "BRK.B") {
        String::from_str("BRK-B")
    } else if same_text(ticker, "SPX") {
        String::from_str("^GSPC")
    } else {
        ticker.to_owned()
    }
}

/// The stream symbol of a public ticker: the indices go by `^GSPC` and `^VIX`, Berkshire B by
/// `BRK-B`.
pub open spec fn spec_stream_symbol(ticker: Seq<char>) -> Seq<char> {
    if ticker == "SPX"@ {
        "^GSPC"@
    } else if ticker == "VIX"@ {
        "^VIX"@
    } else if ticker == "BRK.B"@ {
        "BRK-B"@
    } else {
        ticker
    }
}

pub fn stream_symbol(ticker: &str) -> (r: String)
    ensures
        r@ == spec_stream_symbol(ticker@),
{
    if same_text(ticker, "SPX") {
        String::from_str("^GSPC")
    } else if same_text(ticker, "VIX") {
        String::from_str("^VIX")
    } else if same_text(ticker, "BRK.B") {
        String::from_str("BRK-B")
    } else {
        ticker.to_owned()
    }
}

/// The public ticker and the chart symbol of a market-history download: the ticker trimmed
/// and upper-cased, and its chart symbol.
pub fn history_symbols(ticker: &str) -> (r: (String, String))
    ensures
        r.0@ == upper(trimmed(ticker@)),
        r.1@ == spec_chart_provider_symbol(upper(trimmed(ticker@))),
{
    let public = string_from(&trim_upper(ticker));
    let provider = chart_provider_symbol(public.as_str());
    (public, provider)
}

/// A failure to reach the provider, which may pass.
pub fn temporary_transport_error(message: String) -> (r: UnderlyingResolutionError)
    ensures
        r == UnderlyingResolutionError::TemporarilyUnavailable(message),
{
    UnderlyingResolutionError::TemporarilyUnavailable(message)
}

/// The reason phrase that `http` gives a status code when it displays it.
pub uninterp spec fn status_reason(code: u16) -> Seq<char>;

/// `<reqwest::StatusCode as Display>::fmt` on a valid status code.
///
/// Claims: the text is the code in decimal, a space and the reason phrase that
/// `status_reason` names (the source writes `"{} {}"` with `canonical_reason()`, or
/// `"<unknown status code>"` where there is none). The phrase itself is left unsaid.
#[verifier::external_body]
fn status_text(code: u16) -> (r: String)
    requires
        100 <= code <= 999,
    ensures
        r@ == int_text(code as int) + " "@ + status_reason(code),
{
    reqwest::StatusCode::from_u16(code).unwrap().to_string()
}

/// Whether a status calls for trying again later: a timeout, too many requests or a server
/// error.
pub open spec fn is_temporary_status(status: u16) -> bool {
    status == 408 || status == 429 || (500 <= status < 600)
}

/// What a resolution answer's status says, given the status text: not found for 404, a
/// temporary failure for a timeout, a rate limit or a server error, an incompatible answer
/// for any other status outside 200 to 299.
pub open spec fn resolution_status_matches(
    status: u16,
    text: Seq<char>,
    ticker: Seq<char>,
    r: Result<(), UnderlyingResolutionError>,
) -> bool {
    if status == 404 {
        r matches Err(UnderlyingResolutionError::NotFound(m)) && m@ == "underlying "@ + ticker
            + " was not found"@
    } else if is_temporary_status(status) {
        r matches Err(UnderlyingResolutionError::TemporarilyUnavailable(m)) && m@ == "Yahoo returned HTTP "@
            + text
    } else if !(200 <= status < 300) {
        r matches Err(UnderlyingResolutionError::InvalidProviderResponse(m)) && m@
            == "Yahoo returned unexpected HTTP "@ + text
    } else {
        r is Ok
    }
}

/// The outcome of a resolution answer's status, given how the status is displayed.
pub fn resolution_status_outcome(status: u16, text: &str, ticker: &str) -> (r: Result<(), UnderlyingResolutionError>)
    ensures
        resolution_status_matches(status, text@, ticker@, r),
{
    if status == 404 {
        return Err(UnderlyingResolutionError::NotFound(joined("underlying ", ticker, " was not found")));
    }
    if status == 408 || status == 429 || (500 <= status && status < 600) {
        let mut m = String::from_str("Yahoo returned HTTP ");
        append(&mut m, text);
        return Err(UnderlyingResolutionError::TemporarilyUnavailable(m));
    }
    if !(200 <= status && status < 300) {
        let mut m = String::from_str("Yahoo returned unexpected HTTP ");
        append(&mut m, text);
        return Err(UnderlyingResolutionError::InvalidProviderResponse(m));
    }
    Ok(())
}

/// The outcome of a resolution answer's status.
pub fn classify_resolution_status(status: u16, ticker: &str) -> (r: Result<(), UnderlyingResolutionError>)
    requires
        100 <= status <= 999,
    ensures
        resolution_status_matches(
            status,
            int_text(status as int) + " "@ + status_reason(status),
            ticker@,
            r,
        ),
{
    let text = status_text(status);
    resolution_status_outcome(status, text.as_str(), ticker)
}

/// What a chart answer tells about the symbol asked for.
#[derive(Debug, Clone, PartialEq, Eq)]
pub struct ChartMeta {
    pub symbol: String,
    pub currency: Option<String>,
    pub exchange_name: Option<String>,
    pub exchange_timezone_name: Option<String>,
    pub instrument_type: Option<String>,
}

/// The parts of a chart answer that a resolution reads: the API error, if any, and the
/// metadata of the first result, if any.
#[derive(Debug, Clone, PartialEq, Eq)]
pub struct ResolutionResponse {
    pub error: Option<YahooApiError>,
    pub first_result: Option<ChartMeta>,
}

/// A resolution answer read: an API error reported as not found when its code says so
/// (ignoring ASCII case) and as an incompatible answer otherwise; no result, or a result for
/// another symbol, as an incompatible answer; otherwise the public ticker with the metadata.
pub open spec fn resolution_matches(
    ticker: Seq<char>,
    provider_symbol: Seq<char>,
    response: ResolutionResponse,
    r: Result<ResolvedUnderlying, UnderlyingResolutionError>,
) -> bool {
    match response.error {
        Some(e) => if eq_ignore_ascii_case(e.code@, "not found"@) {
            r matches Err(UnderlyingResolutionError::NotFound(m)) && m@ == "underlying "@ + ticker
                + " was not found: "@ + e.description@
        } else {
            r matches Err(UnderlyingResolutionError::InvalidProviderResponse(m)) && m@ == "Yahoo API error "@
                + e.code@ + ": "@ + e.description@
        },
        None => match response.first_result {
            None => r matches Err(UnderlyingResolutionError::InvalidProviderResponse(m)) && m@
                == "Yahoo response did not contain a chart result"@,
            Some(meta) => if !eq_ignore_ascii_case(trimmed(meta.symbol@), provider_symbol) {
                r matches Err(UnderlyingResolutionError::InvalidProviderResponse(m)) && m@
                    == "Yahoo response symbol did not match the requested ticker"@
            } else {
                r matches Ok(u) && u.ticker@ == ticker && u.metadata == UnderlyingMetadata {
                    currency: meta.currency,
                    exchange: meta.exchange_name,
                    timezone: meta.exchange_timezone_name,
                    instrument_type: meta.instrument_type,
                }
            },
        },
    }
}

pub fn map_resolved_underlying(ticker: &str, provider_symbol: &str, response: ResolutionResponse) -> (r: Result<
    ResolvedUnderlying,
    UnderlyingResolutionError,
>)
    ensures
        resolution_matches(ticker@, provider_symbol@, response, r),
{
    let ghost given = response;
    if let Some(error) = response.error {
        if same_ignoring_ascii_case(error.code.as_str(), "not found") {
            let mut m = joined("underlying ", ticker, " was not found: ");
            append(&mut m, error.description.as_str());
            return Err(UnderlyingResolutionError::NotFound(m));
        }
        let mut m = joined("Yahoo API error ", error.code.as_str(), ": ");
        append(&mut m, error.description.as_str());
        return Err(UnderlyingResolutionError::InvalidProviderResponse(m));
    }
    let meta = match response.first_result {
        None => {
            return Err(
                UnderlyingResolutionError::InvalidProviderResponse(
                    String::from_str("Yahoo response did not contain a chart result"),
                ),
            );
        },
        Some(meta) => meta,
    };
    let symbol = string_from(&trim(&chars_of(meta.symbol.as_str())));
    if !same_ignoring_ascii_case(symbol.as_str(), provider_symbol) {
        return Err(
            UnderlyingResolutionError::InvalidProviderResponse(
                String::from_str("Yahoo response symbol did not match the requested ticker"),
            ),
        );
    }
    Ok(ResolvedUnderlying {
        ticker: ticker.to_owned(),
        metadata: UnderlyingMetadata {
            currency: meta.currency,
            exchange: meta.exchange_name,
            timezone: meta.exchange_timezone_name,
            instrument_type: meta.instrument_type,
        },
    })
}

/// A provider failure reported to the port's caller as unavailability.
pub fn unavailable(message: &str) -> (r: PortError)
    ensures
        r matches PortError::Unavailable(m) && m@ == message@,
{
    PortError::Unavailable(message.to_owned())
}

/// The value at `index`, where there is one.
pub fn value_at<T: Copy>(values: &[Option<T>], index: usize) -> (r: Option<T>)
    ensures
        r == (if index < values@.len() {
            values@[index as int]
        } else {
            None
        }),
{
    if index < values.len() {
        values[index]
    } else {
        None
    }
}

/// The session flag of a quote: 1 during the regular session (a market state of `REGULAR`,
/// ignoring ASCII case), 0 otherwise.
pub fn market_hours(market_state: &Option<String>) -> (r: i32)
    ensures
        r == (if market_state matches Some(s) && eq_ignore_ascii_case(s@, "REGULAR"@) {
            1i32
        } else {
            0i32
        }),
{
    match market_state {
        Some(s) => if same_ignoring_ascii_case(s.as_str(), "REGULAR") {
            1
        } else {
            0
        },
        None => 0,
    }
}

/// Obtains historical prices and corporate actions from Yahoo Finance.
#[derive(Debug, Default, Clone, Copy)]
pub struct YahooMarketHistoryAdapter;

/// Obtains a current price from Yahoo Finance.
#[derive(Debug, Default, Clone, Copy)]
pub struct YahooLivePricesAdapter;

/// The stream message that subscribes to a symbol.
pub open spec fn subscribe_frame(symbol: Seq<char>) -> Seq<char> {
    "{\"subscribe\":[\""@ + symbol + "\"]}"@
}

/// The stream message that ends a subscription to a symbol.
pub open spec fn unsubscribe_frame(symbol: Seq<char>) -> Seq<char> {
    "{\"unsubscribe\":[\""@ + symbol + "\"]}"@
}

/// The subscription of a live price stream: the public ticker asked for and the stream
/// symbol followed.
#[derive(Debug, Clone, PartialEq, Eq)]
pub struct StreamSubscription {
    pub ticker: String,
    pub symbol: String,
}

impl StreamSubscription {
    /// Follows the ticker a subscriber first asks for; the message that subscribes to it.
    pub fn open(requested: &str) -> (r: Result<(StreamSubscription, String), YahooError>)
        ensures
            match r {
                Ok((s, frame)) => spec_normalize_ticker(requested@) == Some(s.ticker@) && s.symbol@
                    == spec_stream_symbol(s.ticker@) && frame@ == subscribe_frame(s.symbol@),
                Err(e) => spec_normalize_ticker(requested@) is None && e == YahooError::Ticker,
            },
    {
        let ticker = normalize_ticker(requested)?;
        let symbol = stream_symbol(ticker.as_str());
        let frame = joined("{\"subscribe\":[\"", symbol.as_str(), "\"]}");
        Ok((StreamSubscription { ticker, symbol }, frame))
    }

    /// Follows the ticker a subscriber now asks for: the messages to send, none where the
    /// stream symbol stays the same.
    pub fn change(&mut self, requested: &str) -> (r: Result<Vec<String>, YahooError>)
        ensures
            match r {
                Err(e) => spec_normalize_ticker(requested@) is None && e == YahooError::Ticker
                    && *final(self) == *old(self),
                Ok(frames) => {
                    &&& spec_normalize_ticker(requested@) == Some(final(self).ticker@)
                    &&& final(self).symbol@ == spec_stream_symbol(final(self).ticker@)
                    &&& final(self).symbol@ == old(self).symbol@ ==> frames@.len() == 0
                    &&& final(self).symbol@ != old(self).symbol@ ==> frames@.len() == 2
                        && frames@[0]@ == unsubscribe_frame(old(self).symbol@)
                        && frames@[1]@ == subscribe_frame(final(self).symbol@)
                },
            },
    {
        let ticker = normalize_ticker(requested)?;
        let symbol = stream_symbol(ticker.as_str());
        let mut frames: Vec<String> = Vec::new();
        if !same_text(symbol.as_str(), self.symbol.as_str()) {
            frames.push(joined("{\"unsubscribe\":[\"", self.symbol.as_str(), "\"]}"));
            frames.push(joined("{\"subscribe\":[\"", symbol.as_str(), "\"]}"));
            self.symbol = symbol;
        }
        self.ticker = ticker;
        Ok(frames)
    }

    /// The message that keeps the subscription alive.
    pub fn heartbeat(&self) -> (r: String)
        ensures
            r@ == subscribe_frame(self.symbol@),
    {
        joined("{\"subscribe\":[\"", self.symbol.as_str(), "\"]}")
    }

    /// The ticker under which a streamed price is passed on: only a price of the symbol
    /// followed, during the regular session (flag 1).
    pub fn accept(&self, provider_id: &str, market_hours: i32) -> (r: Option<String>)
        ensures
            match r {
                Some(t) => provider_id@ == self.symbol@ && market_hours == 1 && t@ == self.ticker@,
                None => !(provider_id@ == self.symbol@ && market_hours == 1),
            },
    {
        if !same_text(provider_id, self.symbol.as_str()) || market_hours != 1 {
            return None;
        }
        Some(self.ticker.clone())
    }
}

} // verus!
