//! Which underlyings the service follows, and the rules that name them.

use vstd::prelude::*;
use vstd::string::*;

use super::sector_performance::{sector_etfs, sectors, SECTOR_BENCHMARK_TICKER};
use crate::text::{
    ascii_alphanumeric, ascii_upper, lemma_ascii_upper_idempotent, is_ascii_alphanumeric, same_text, string_from, trim_end, trim_start,
    trim_upper, trimmed, upper,
};
use crate::time::UtcInstant;

verus! {

#[derive(Debug, Clone, Copy, PartialEq, Eq, Structural)]
pub enum TrackedTickerSource {
    System,
    User,
}

#[derive(Debug, Clone, Copy, PartialEq, Eq, Structural)]
pub enum UnderlyingResolutionState {
    Pending,
    Resolved,
    Rejected,
}

#[derive(Debug, Clone, PartialEq, Eq)]
pub struct UnderlyingMetadata {
    pub currency: Option<String>,
    pub exchange: Option<String>,
    pub timezone: Option<String>,
    pub instrument_type: Option<String>,
}

impl UnderlyingMetadata {
    pub open spec fn is_empty(self) -> bool {
        &&& self.currency is None
        &&& self.exchange is None
        &&& self.timezone is None
        &&& self.instrument_type is None
    }
}

impl Default for UnderlyingMetadata {
    fn default() -> (r: Self)
        ensures
            r.is_empty(),
    {
        UnderlyingMetadata { currency: None, exchange: None, timezone: None, instrument_type: None }
    }
}

#[derive(Debug, Clone, PartialEq, Eq)]
pub struct ResolvedUnderlying {
    pub ticker: String,
    pub metadata: UnderlyingMetadata,
}

#[derive(Debug, Clone, PartialEq, Eq)]
pub struct TrackedTicker {
    pub ticker: String,
    pub source: TrackedTickerSource,
    pub active: bool,
    pub historical_prices: bool,
    pub option_snapshots: bool,
    pub resolution_state: UnderlyingResolutionState,
    pub validated_at: Option<UtcInstant>,
    pub metadata: UnderlyingMetadata,
}

#[derive(Debug, Clone, Copy, PartialEq, Eq, Structural)]
pub struct TrackedTickerConfiguration {
    pub active: bool,
    pub historical_prices: bool,
    pub option_snapshots: bool,
}

/// The text a tracked ticker is stored under, or `None` when the text names no valid ticker:
/// trimmed, upper-cased, 1 to 15 characters of ASCII letters, digits, `^`, `.` and `-`.
pub open spec fn spec_normalize_ticker(value: Seq<char>) -> Option<Seq<char>> {
    let t = upper(trimmed(value));
    if 0 < t.len() <= 15 && forall|i: int| 0 <= i < t.len() ==> #[trigger] is_ticker_char(t[i]) {
        Some(t)
    } else {
        None
    }
}

pub open spec fn is_ticker_char(c: char) -> bool {
    is_ascii_alphanumeric(c) || c == '^' || c == '.' || c == '-'
}

/// Normalizes a user-supplied ticker, or explains that it is invalid.
pub fn normalize_ticker(value: &str) -> (r: Result<String, String>)
    ensures
        match r {
            Ok(t) => spec_normalize_ticker(value@) == Some(t@),
            Err(e) => spec_normalize_ticker(value@) is None && e@ == "invalid tracked ticker"@,
        },
{
    let ticker = trim_upper(value);
    let mut valid = ticker.len() > 0 && ticker.len() <= 15;
    let mut i: usize = 0;
    while valid && i < ticker.len()
        invariant
            i <= ticker@.len(),
            valid ==> forall|k: int| 0 <= k < i ==> #[trigger] is_ticker_char(ticker@[k]),
            valid ==> 0 < ticker@.len() <= 15,
            !valid ==> spec_normalize_ticker(value@) is None,
            ticker@ == upper(trimmed(value@)),
        decreases ticker.len() - i,
    {
        let c = ticker[i];
        if !(ascii_alphanumeric(c) || c == '^' || c == '.' || c == '-') {
            assert(!is_ticker_char(ticker@[i as int]));
            valid = false;
        }
        i = i + 1;
    }
    if valid {
        Ok(string_from(&ticker))
    } else {
        Err(String::from_str("invalid tracked ticker"))
    }
}

proof fn lemma_ticker_has_no_white_space(t: Seq<char>, s: Seq<char>)
    requires
        forall|i: int| 0 <= i < t.len() ==> #[trigger] is_ticker_char(t[i]),
        t == upper(s),
    ensures
        trimmed(t) == t,
        upper(t) == t,
{
    if t.len() > 0 {
        assert(is_ticker_char(t[0]));
        assert(is_ticker_char(t.last()));
    }
    assert(trim_start(t) == t);
    assert(trim_end(t) == t);
    assert forall|i: int| 0 <= i < t.len() implies #[trigger] ascii_upper(t[i]) == t[i] by {
        lemma_ascii_upper_idempotent(s[i]);
    }
    assert(upper(t) =~= t);
}

/// Normalizing a normalized ticker gives it back unchanged.
pub proof fn lemma_normalize_ticker_idempotent(value: Seq<char>)
    requires
        spec_normalize_ticker(value) is Some,
    ensures
        spec_normalize_ticker(spec_normalize_ticker(value)->0) == spec_normalize_ticker(value),
{
    let t = spec_normalize_ticker(value)->0;
    lemma_ticker_has_no_white_space(t, trimmed(value));
}

/// The tickers the service always follows: the two indices, the benchmark fund and the
/// eleven sector funds, in that order.
pub open spec fn system_ticker_names() -> Seq<Seq<char>> {
    seq!["SPX"@, "VIX"@, "SPY"@] + sector_etfs()
}

/// Whether the ticker is one the service always follows.
pub fn is_system_ticker(ticker: &str) -> (r: bool)
    ensures
        r == system_ticker_names().contains(ticker@),
{
    let names = system_ticker_list();
    for i in 0..names.len()
        invariant
            names@.len() == system_ticker_names().len(),
            forall|k: int| 0 <= k < names@.len() ==> #[trigger] names@[k]@ == system_ticker_names()[k],
            forall|k: int| 0 <= k < i ==> system_ticker_names()[k] != ticker@,
    {
        if same_text(names[i], ticker) {
            assert(system_ticker_names()[i as int] == ticker@);
            return true;
        }
    }
    false
}

fn system_ticker_list() -> (r: Vec<&'static str>)
    ensures
        r@.len() == system_ticker_names().len(),
        forall|k: int| 0 <= k < r@.len() ==> #[trigger] r@[k]@ == system_ticker_names()[k],
{
    let mut r: Vec<&'static str> = Vec::new();
    r.push("SPX");
    r.push("VIX");
    r.push(SECTOR_BENCHMARK_TICKER);
    let catalog = sectors();
    for i in 0..11
        invariant
            catalog@.len() == 11,
            forall|k: int| 0 <= k < 11 ==> #[trigger] catalog@[k].etf@ == sector_etfs()[k],
            r@.len() == 3 + i,
            r@[0]@ == "SPX"@,
            r@[1]@ == "VIX"@,
            r@[2]@ == "SPY"@,
            forall|k: int| 0 <= k < i ==> #[trigger] r@[3 + k]@ == sector_etfs()[k],
    {
        r.push(catalog[i].etf);
    }
    assert forall|k: int| 0 <= k < r@.len() implies #[trigger] r@[k]@ == system_ticker_names()[k] by {
        if k >= 3 {
            assert(r@[3 + (k - 3)]@ == sector_etfs()[k - 3]);
        }
    }
    r
}

impl TrackedTicker {
    pub open spec fn configuration_of(self) -> TrackedTickerConfiguration {
        TrackedTickerConfiguration {
            active: self.active,
            historical_prices: self.historical_prices,
            option_snapshots: self.option_snapshots,
        }
    }

    /// A ticker added by a user, not yet confirmed by the provider.
    pub fn user(ticker: &str, configuration: TrackedTickerConfiguration) -> (r: Result<
        Self,
        String,
    >)
        ensures
            match r {
                Ok(t) => {
                    &&& spec_normalize_ticker(ticker@) == Some(t.ticker@)
                    &&& t.source == TrackedTickerSource::User
                    &&& t.configuration_of() == configuration
                    &&& t.resolution_state == UnderlyingResolutionState::Pending
                    &&& t.validated_at is None
                    &&& t.metadata.is_empty()
                },
                Err(e) => spec_normalize_ticker(ticker@) is None && e@ == "invalid tracked ticker"@,
            },
    {
        let ticker = normalize_ticker(ticker)?;
        Ok(TrackedTicker {
            ticker,
            source: TrackedTickerSource::User,
            active: configuration.active,
            historical_prices: configuration.historical_prices,
            option_snapshots: configuration.option_snapshots,
            resolution_state: UnderlyingResolutionState::Pending,
            validated_at: None,
            metadata: UnderlyingMetadata::default(),
        })
    }

    /// Records that the provider confirmed the underlying.
    pub fn resolve(&mut self, underlying: ResolvedUnderlying, validated_at: UtcInstant)
        ensures
            final(self).ticker == underlying.ticker,
            final(self).resolution_state == UnderlyingResolutionState::Resolved,
            final(self).validated_at == Some(validated_at),
            final(self).metadata == underlying.metadata,
            final(self).source == old(self).source,
            final(self).configuration_of() == old(self).configuration_of(),
    {
        self.ticker = underlying.ticker;
        self.resolution_state = UnderlyingResolutionState::Resolved;
        self.validated_at = Some(validated_at);
        self.metadata = underlying.metadata;
    }

    /// Records that the provider does not know the underlying.
    pub fn reject(&mut self)
        ensures
            final(self).ticker == old(self).ticker,
            final(self).resolution_state == UnderlyingResolutionState::Rejected,
            final(self).validated_at is None,
            final(self).metadata.is_empty(),
            final(self).source == old(self).source,
            final(self).configuration_of() == old(self).configuration_of(),
    {
        self.resolution_state = UnderlyingResolutionState::Rejected;
        self.validated_at = None;
        self.metadata = UnderlyingMetadata::default();
    }

    /// Which data the service collects for this ticker.
    pub fn configuration(&self) -> (r: TrackedTickerConfiguration)
        ensures
            r == self.configuration_of(),
    {
        TrackedTickerConfiguration {
            active: self.active,
            historical_prices: self.historical_prices,
            option_snapshots: self.option_snapshots,
        }
    }
}

/// What the service stores for a ticker it always follows.
pub open spec fn is_system_entry(t: TrackedTicker, name: Seq<char>) -> bool {
    &&& t.ticker@ == name
    &&& t.source == TrackedTickerSource::System
    &&& t.active
    &&& t.historical_prices == (name != "VIX"@)
    &&& t.option_snapshots == (name == "SPX"@ || name == "SPY"@)
    &&& t.resolution_state == UnderlyingResolutionState::Resolved
    &&& t.validated_at is None
    &&& t.metadata.is_empty()
}

/// The catalog of tickers the service always follows, all active and resolved.
pub fn system_tickers() -> (r: Vec<TrackedTicker>)
    ensures
        r@.len() == system_ticker_names().len(),
        forall|i: int| 0 <= i < r@.len() ==> is_system_entry(#[trigger] r@[i], system_ticker_names()[i]),
{
    let names = system_ticker_list();
    let mut r: Vec<TrackedTicker> = Vec::new();
    for i in 0..names.len()
        invariant
            names@.len() == system_ticker_names().len(),
            forall|k: int| 0 <= k < names@.len() ==> #[trigger] names@[k]@ == system_ticker_names()[k],
            r@.len() == i,
            forall|k: int| 0 <= k < i ==> is_system_entry(#[trigger] r@[k], system_ticker_names()[k]),
    {
        let name = names[i];
        r.push(TrackedTicker {
            ticker: String::from_str(name),
            source: TrackedTickerSource::System,
            active: true,
            historical_prices: !same_text(name, "VIX"),
            option_snapshots: same_text(name, "SPX") || same_text(name, "SPY"),
            resolution_state: UnderlyingResolutionState::Resolved,
            validated_at: None,
            metadata: UnderlyingMetadata::default(),
        });
    }
    r
}

} // verus!
