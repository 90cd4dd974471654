//! What a historical-volatility analysis decides before and around its arithmetic:
//! the order of the prices, whether the history is sound, and the state each
//! horizon is reported in.

use vstd::prelude::*;
use vstd::string::*;

use crate::time::UtcInstant;

verus! {

pub const ANNUALIZATION_SESSIONS: usize = 252;

#[derive(Debug, Clone, Copy, PartialEq, Eq, Structural)]
pub enum HistoricalVolatilityStatus {
    Available,
    InsufficientHistory,
    NoValidPrices,
    InvalidData,
    NumericFailure,
}

/// Two quotes of the history share an instant.
pub open spec fn has_repeated_instant(instants: Seq<UtcInstant>) -> bool {
    exists|i: int, j: int| 0 <= i < j < instants.len() && instants[i] == instants[j]
}

/// Whether two quotes of the history share an instant, which makes the history
/// unsound for every horizon.
pub fn has_duplicate_instants(instants: &[UtcInstant]) -> (r: bool)
    ensures
        r == has_repeated_instant(instants@),
{
    let mut j: usize = 0;
    while j < instants.len()
        invariant
            j <= instants@.len(),
            forall|a: int, b: int| 0 <= a < b < j ==> instants@[a] != instants@[b],
        decreases instants.len() - j,
    {
        let mut i: usize = 0;
        while i < j
            invariant
                i <= j < instants@.len(),
                forall|a: int| 0 <= a < i ==> instants@[a] != instants@[j as int],
            decreases j - i,
        {
            if instants[i].micros == instants[j].micros {
                return true;
            }
            i = i + 1;
        }
        j = j + 1;
    }
    false
}

/// Position `a` comes before position `b` in time order: an earlier instant, or
/// the same instant and an earlier position.
pub open spec fn comes_before(instants: Seq<UtcInstant>, a: int, b: int) -> bool {
    instants[a].micros < instants[b].micros || (instants[a].micros == instants[b].micros && a < b)
}

/// `order` lists positions of `instants` in time order, each once, ties kept in
/// the order they were given in.
pub open spec fn in_time_order(instants: Seq<UtcInstant>, order: Seq<usize>) -> bool {
    &&& forall|k: int| 0 <= k < order.len() ==> #[trigger] order[k] < instants.len()
    &&& forall|k: int, l: int|
        0 <= k < l < order.len() ==> comes_before(instants, #[trigger] order[k] as int, #[trigger] order[l] as int)
}

/// The positions of the priced quotes, in time order (a stable sort by instant).
pub fn chronological_positions(instants: &[UtcInstant]) -> (r: Vec<usize>)
    ensures
        r@.len() == instants@.len(),
        in_time_order(instants@, r@),
        forall|p: usize| p < instants@.len() ==> #[trigger] r@.contains(p),
{
    let mut order: Vec<usize> = Vec::new();
    let mut n: usize = 0;
    while n < instants.len()
        invariant
            n <= instants@.len(),
            order@.len() == n,
            in_time_order(instants@, order@),
            forall|k: int| 0 <= k < order@.len() ==> #[trigger] order@[k] < n,
            forall|p: usize| p < n ==> #[trigger] order@.contains(p),
        decreases instants.len() - n,
    {
        let key = instants[n].micros;
        let mut i: usize = order.len();
        while i > 0 && instants[order[i - 1]].micros > key
            invariant
                i <= order@.len(),
                order@.len() == n,
                n < instants@.len(),
                key == instants@[n as int].micros,
                in_time_order(instants@, order@),
                forall|k: int| 0 <= k < order@.len() ==> #[trigger] order@[k] < n,
                forall|k: int| i <= k < order@.len() ==> instants@[#[trigger] order@[k] as int].micros > key,
            decreases i,
        {
            i = i - 1;
        }
        let ghost before = order@;
        order.insert(i, n);
        proof {
            assert(order@ =~= before.insert(i as int, n));
            assert forall|k: int, l: int| 0 <= k < l < order@.len() implies comes_before(
                instants@,
                #[trigger] order@[k] as int,
                #[trigger] order@[l] as int,
            ) by {
                if l < i {
                    assert(comes_before(instants@, before[k] as int, before[l] as int));
                } else if l == i {
                    assert(before[k] < n);
                    if i > 0 && k < i {
                        if k < i - 1 {
                            assert(comes_before(instants@, before[k] as int, before[i - 1] as int));
                        }
                    }
                } else if k > i {
                    assert(comes_before(instants@, before[k - 1] as int, before[l - 1] as int));
                } else if k == i {
                    assert(instants@[before[l - 1] as int].micros > key);
                } else {
                    assert(comes_before(instants@, before[k] as int, before[l - 1] as int));
                }
            }
            assert forall|p: usize| p < n + 1 implies #[trigger] order@.contains(p) by {
                if p < n {
                    assert(before.contains(p));
                    let k = choose|k: int| 0 <= k < before.len() && before[k] == p;
                    if k < i {
                        assert(order@[k] == p);
                    } else {
                        assert(order@[k + 1] == p);
                    }
                } else {
                    assert(order@[i as int] == n);
                }
            }
        }
        n = n + 1;
    }
    order
}

/// The prices a horizon needs: one more than its window of returns, saturating.
pub fn required_prices(window: usize) -> (r: usize)
    ensures
        r == if window < usize::MAX {
            window + 1
        } else {
            usize::MAX as int
        },
{
    if window < usize::MAX {
        window + 1
    } else {
        usize::MAX
    }
}

/// The state a horizon is reported in when it cannot be computed, with its
/// diagnostic; `None` when the prices suffice to compute it.
pub open spec fn spec_horizon_refusal(duplicate_instants: bool, valid_prices: nat, required: nat) -> Option<
    (HistoricalVolatilityStatus, Seq<char>),
> {
    if duplicate_instants {
        Some((HistoricalVolatilityStatus::InvalidData, "duplicate_timestamps"@))
    } else if valid_prices == 0 {
        Some((HistoricalVolatilityStatus::NoValidPrices, "no_valid_prices"@))
    } else if valid_prices < required {
        Some((HistoricalVolatilityStatus::InsufficientHistory, "insufficient_history"@))
    } else {
        None
    }
}

/// Why a horizon cannot be computed: a history with repeated instants is invalid,
/// one without a valid price has none, and one with fewer than the required
/// prices is insufficient; otherwise nothing stops it.
pub fn horizon_refusal(duplicate_instants: bool, valid_prices: usize, window: usize) -> (r: Option<
    (HistoricalVolatilityStatus, &'static str),
>)
    ensures
        match (r, spec_horizon_refusal(duplicate_instants, valid_prices as nat, required_prices_of(window))) {
            (Some((status, text)), Some((s, t))) => status == s && text@ == t,
            (None, None) => true,
            _ => false,
        },
{
    let required = required_prices(window);
    if duplicate_instants {
        Some((HistoricalVolatilityStatus::InvalidData, "duplicate_timestamps"))
    } else if valid_prices == 0 {
        Some((HistoricalVolatilityStatus::NoValidPrices, "no_valid_prices"))
    } else if valid_prices < required {
        Some((HistoricalVolatilityStatus::InsufficientHistory, "insufficient_history"))
    } else {
        None
    }
}

/// The prices a horizon of `window` returns needs, saturating at the largest `usize`.
pub open spec fn required_prices_of(window: usize) -> nat {
    if window < usize::MAX {
        (window + 1) as nat
    } else {
        usize::MAX as nat
    }
}

/// Where the reported series of a horizon starts, and whether it was cut: only the
/// last `limit` values are kept.
pub fn series_start(values: usize, limit: usize) -> (r: (usize, bool))
    ensures
        r.0 == if values > limit {
            values - limit
        } else {
            0
        },
        r.1 == (values > limit),
{
    if values > limit {
        (values - limit, true)
    } else {
        (0, false)
    }
}

/// The diagnostics of a whole analysis: repeated instants, then ignored prices.
pub fn history_diagnostics(duplicate_instants: bool, ignored: usize) -> (r: Vec<String>)
    ensures
        r@.len() == (if duplicate_instants { 1int } else { 0int }) + (if ignored > 0 { 1int } else { 0int }),
        duplicate_instants ==> r@[0]@ == "duplicate_timestamps"@,
        ignored > 0 ==> r@[r@.len() - 1]@ == "invalid_prices_ignored"@,
{
    let mut r: Vec<String> = Vec::new();
    if duplicate_instants {
        r.push(String::from_str("duplicate_timestamps"));
    }
    if ignored > 0 {
        r.push(String::from_str("invalid_prices_ignored"));
    }
    r
}

} // verus!
