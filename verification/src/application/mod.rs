//! The use cases: each built from its collaborators, with the rules it applies to requests.

use vstd::prelude::*;

use crate::port::PortError;
use crate::text::{
    all_chars_in_class, all_in_class, lemma_class_text_fixed, lemma_upper_idempotent, plain_extras, string_from,
    trim_upper, trimmed, upper,
};

pub mod data_refresh;
pub mod gamma_exposure;
pub mod index_history_migration;
pub mod interest_rates;
pub mod intraday_simulation;
pub mod market_data;
pub mod market_history_migration;
pub mod market_scheduling;
pub mod market_stream;
pub mod market_volatility;
pub mod option_chain_migration;
pub mod option_snapshot_enrichment;
pub mod options;
pub mod portfolio;
pub mod portfolio_migration;
pub mod portfolio_valuation;
pub mod saved_strategies;
pub mod sector_performance;
pub mod simulation;
pub mod strategy_migration;
pub mod synchronization;
pub mod tracked_ticker_migration;
pub mod tracked_tickers;
pub mod volatility_term_structure_migration;
pub mod yield_curve_migration;

verus! {

/// A requested ticker, trimmed and upper-cased, where that leaves a non-empty text of ASCII
/// letters, digits and the characters of `extra`.
pub open spec fn class_ticker(ticker: Seq<char>, extra: Seq<char>) -> Option<Seq<char>> {
    let t = upper(trimmed(ticker));
    if t.len() > 0 && all_in_class(t, extra) {
        Some(t)
    } else {
        None
    }
}

/// The ticker accepted, or the request refused with `message`.
pub open spec fn ticker_outcome(
    ticker: Seq<char>,
    extra: Seq<char>,
    message: Seq<char>,
    r: Result<String, PortError>,
) -> bool {
    match class_ticker(ticker, extra) {
        Some(t) => r matches Ok(s) && s@ == t,
        None => r matches Err(PortError::InvalidRequest(m)) && m@ == message,
    }
}

/// A ticker that passed a class check passes it again unchanged.
pub proof fn lemma_class_ticker_idempotent(ticker: Seq<char>, extra: Seq<char>)
    requires
        plain_extras(extra),
        class_ticker(ticker, extra) is Some,
    ensures
        class_ticker(class_ticker(ticker, extra)->0, extra) == class_ticker(ticker, extra),
{
    let t = upper(trimmed(ticker));
    lemma_class_text_fixed(t, extra);
    lemma_upper_idempotent(trimmed(ticker));
}

/// Checks a requested ticker against a character class.
pub fn checked_ticker(ticker: &str, extra: &str, message: &str) -> (r: Result<String, PortError>)
    ensures
        ticker_outcome(ticker@, extra@, message@, r),
{
    let t = trim_upper(ticker);
    if t.len() == 0 || !all_chars_in_class(&t, extra) {
        return Err(PortError::InvalidRequest(message.to_owned()));
    }
    Ok(string_from(&t))
}

/// The sum of a sequence of counts.
pub open spec fn count_total(counts: Seq<u64>) -> int
    decreases counts.len(),
{
    if counts.len() == 0 {
        0
    } else {
        count_total(counts.drop_last()) + counts.last()
    }
}

/// A prefix of the counts adds up to no more than all of them.
pub proof fn lemma_count_total_prefix(counts: Seq<u64>, n: int)
    requires
        0 <= n <= counts.len(),
    ensures
        count_total(counts.take(n)) <= count_total(counts),
    decreases counts.len(),
{
    if n < counts.len() {
        assert(counts.drop_last().take(n) =~= counts.take(n));
        lemma_count_total_prefix(counts.drop_last(), n);
    } else {
        assert(counts.take(n) =~= counts);
    }
}

/// The sum of the counts, or `None` where it does not fit in a `u64`.
pub fn checked_total(counts: &Vec<u64>) -> (r: Option<u64>)
    ensures
        match r {
            Some(t) => t == count_total(counts@),
            None => count_total(counts@) > u64::MAX,
        },
{
    let mut total: u64 = 0;
    let mut i: usize = 0;
    while i < counts.len()
        invariant
            i <= counts.len(),
            total == count_total(counts@.take(i as int)),
        decreases counts.len() - i,
    {
        assert(counts@.take(i as int + 1).drop_last() =~= counts@.take(i as int));
        match total.checked_add(counts[i]) {
            Some(t) => total = t,
            None => {
                proof {
                    lemma_count_total_prefix(counts@, i as int + 1);
                }
                return None;
            },
        }
        i += 1;
    }
    assert(counts@.take(i as int) =~= counts@);
    Some(total)
}

} // verus!
