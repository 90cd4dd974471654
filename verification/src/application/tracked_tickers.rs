//! The rules of the ticker-following use cases: protected system tickers, when a ticker must be
//! resolved again, and how provider failures are reported.

use vstd::prelude::*;
use vstd::string::*;

use crate::domain::tracked_ticker::{
    is_system_entry, is_system_ticker, system_ticker_names, system_tickers, TrackedTicker,
    TrackedTickerConfiguration, UnderlyingMetadata, UnderlyingResolutionState,
};
use crate::port::{PortError, UnderlyingResolutionError};
use crate::text::{joined, same_text};

verus! {

/// The configuration the service keeps for a ticker it always follows.
pub open spec fn system_configuration(name: Seq<char>) -> TrackedTickerConfiguration {
    TrackedTickerConfiguration {
        active: true,
        historical_prices: name != "VIX"@,
        option_snapshots: name == "SPX"@ || name == "SPY"@,
    }
}

/// The answer to configuring a ticker the service always follows: accepted, and nothing to
/// do, only where the configuration asked for is the one kept; `None` for other tickers.
pub fn protected_configuration(ticker: &str, configuration: TrackedTickerConfiguration) -> (r: Option<
    Result<(), PortError>,
>)
    ensures
        !system_ticker_names().contains(ticker@) ==> r is None,
        system_ticker_names().contains(ticker@) && configuration == system_configuration(ticker@) ==> r
            == Some(Ok::<(), PortError>(())),
        system_ticker_names().contains(ticker@) && configuration != system_configuration(ticker@) ==> (
        r matches Some(Err(PortError::Conflict(m))) && m@ == "tracked ticker "@ + ticker@
            + " is protected by the system"@),
{
    if !is_system_ticker(ticker) {
        return None;
    }
    let catalog = system_tickers();
    let ghost k = system_ticker_names().index_of(ticker@);
    for i in 0..catalog.len()
        invariant
            catalog@.len() == system_ticker_names().len(),
            forall|j: int| 0 <= j < catalog@.len() ==> is_system_entry(#[trigger] catalog@[j], system_ticker_names()[j]),
            system_ticker_names().contains(ticker@),
            forall|j: int| 0 <= j < i ==> system_ticker_names()[j] != ticker@,
    {
        assert(is_system_entry(catalog@[i as int], system_ticker_names()[i as int]));
        if same_text(catalog[i].ticker.as_str(), ticker) {
            if catalog[i].configuration() == configuration {
                return Some(Ok(()));
            }
            return Some(Err(PortError::Conflict(joined("tracked ticker ", ticker, " is protected by the system"))));
        }
    }
    proof {
        let j = choose|j: int| 0 <= j < system_ticker_names().len() && system_ticker_names()[j] == ticker@;
        assert(system_ticker_names()[j] == ticker@);
    }
    None
}

/// Whether configuring a stored ticker needs the provider's confirmation first: it is to be
/// active and is not resolved yet.
pub fn needs_resolution(entry: &TrackedTicker, configuration: TrackedTickerConfiguration) -> (r: bool)
    ensures
        r == (configuration.active && entry.resolution_state != UnderlyingResolutionState::Resolved),
{
    configuration.active && entry.resolution_state != UnderlyingResolutionState::Resolved
}

/// Gives a stored ticker the configuration asked for.
pub fn apply_configuration(entry: &mut TrackedTicker, configuration: TrackedTickerConfiguration)
    ensures
        final(entry).configuration_of() == configuration,
        final(entry).ticker == old(entry).ticker,
        final(entry).source == old(entry).source,
        final(entry).resolution_state == old(entry).resolution_state,
        final(entry).validated_at == old(entry).validated_at,
        final(entry).metadata == old(entry).metadata,
{
    entry.active = configuration.active;
    entry.historical_prices = configuration.historical_prices;
    entry.option_snapshots = configuration.option_snapshots;
}

/// A provider failure as the use case reports it: not found stays not found, anything else
/// is unavailability.
pub fn map_resolution_error(error: UnderlyingResolutionError) -> (r: PortError)
    ensures
        match error {
            UnderlyingResolutionError::NotFound(m) => r == PortError::NotFound(m),
            UnderlyingResolutionError::TemporarilyUnavailable(m) => r == PortError::Unavailable(m),
            UnderlyingResolutionError::InvalidProviderResponse(m) => r == PortError::Unavailable(m),
        },
{
    match error {
        UnderlyingResolutionError::NotFound(message) => PortError::NotFound(message),
        UnderlyingResolutionError::TemporarilyUnavailable(message) => PortError::Unavailable(message),
        UnderlyingResolutionError::InvalidProviderResponse(message) => PortError::Unavailable(message),
    }
}

/// The first stored entry that already confirmed the ticker.
pub open spec fn confirmed_entry(name: Seq<char>, stored: Seq<TrackedTicker>) -> Option<int>
    decreases stored.len(),
{
    if stored.len() == 0 {
        None
    } else {
        match confirmed_entry(name, stored.drop_last()) {
            Some(i) => Some(i),
            None => if stored.last().ticker@ == name && stored.last().resolution_state
                == UnderlyingResolutionState::Resolved {
                Some(stored.len() - 1)
            } else {
                None
            },
        }
    }
}

proof fn lemma_confirmed_entry_sticks(name: Seq<char>, stored: Seq<TrackedTicker>, k: int)
    requires
        0 <= k <= stored.len(),
        confirmed_entry(name, stored.take(k)) is Some,
    ensures
        confirmed_entry(name, stored) == confirmed_entry(name, stored.take(k)),
    decreases stored.len() - k,
{
    if k < stored.len() {
        assert(stored.take(k + 1).drop_last() =~= stored.take(k));
        lemma_confirmed_entry_sticks(name, stored, k + 1);
    } else {
        assert(stored.take(k) =~= stored);
    }
}

fn copy_metadata(m: &UnderlyingMetadata) -> (r: UnderlyingMetadata)
    ensures
        r == *m,
{
    UnderlyingMetadata {
        currency: match &m.currency {
            Some(s) => Some(s.clone()),
            None => None,
        },
        exchange: match &m.exchange {
            Some(s) => Some(s.clone()),
            None => None,
        },
        timezone: match &m.timezone {
            Some(s) => Some(s.clone()),
            None => None,
        },
        instrument_type: match &m.instrument_type {
            Some(s) => Some(s.clone()),
            None => None,
        },
    }
}

/// A system ticker as bootstrapped: where a stored entry already confirmed it, that entry's
/// validation time and metadata are kept.
pub fn bootstrap_entry(system_entry: TrackedTicker, stored: &Vec<TrackedTicker>) -> (r: TrackedTicker)
    ensures
        match confirmed_entry(system_entry.ticker@, stored@) {
            None => r == system_entry,
            Some(i) => r == TrackedTicker {
                validated_at: stored@[i].validated_at,
                metadata: stored@[i].metadata,
                ..system_entry
            },
        },
{
    let mut entry = system_entry;
    let ghost given = entry;
    proof {
        assert(stored@.take(0) =~= Seq::<TrackedTicker>::empty());
    }
    for i in 0..stored.len()
        invariant
            entry == given,
            given == system_entry,
            confirmed_entry(given.ticker@, stored@.take(i as int)) is None,
    {
        proof {
            assert(stored@.take(i + 1).drop_last() =~= stored@.take(i as int));
            assert(stored@.take(i + 1).last() == stored@[i as int]);
        }
        if same_text(stored[i].ticker.as_str(), entry.ticker.as_str()) && stored[i].resolution_state
            == UnderlyingResolutionState::Resolved {
            proof {
                assert(confirmed_entry(given.ticker@, stored@.take(i + 1)) == Some(i as int));
                lemma_confirmed_entry_sticks(given.ticker@, stored@, i + 1);
                assert(confirmed_entry(given.ticker@, stored@) == Some(i as int));
            }
            entry.validated_at = stored[i].validated_at;
            entry.metadata = copy_metadata(&stored[i].metadata);
            assert(entry == TrackedTicker {
                validated_at: stored@[i as int].validated_at,
                metadata: stored@[i as int].metadata,
                ..given
            });
            return entry;
        }
    }
    proof {
        assert(stored@.take(stored@.len() as int) =~= stored@);
    }
    entry
}

} // verus!
