//! Diagnostics kept while computing gamma exposure: which contracts were left out, and why.

use vstd::prelude::*;

use crate::domain::options::ProviderTimestampTimezone;
use crate::time::UtcInstant;

verus! {

pub const EXCLUSION_SAMPLE_LIMIT: usize = 20;

#[derive(Debug, Clone, Copy, PartialEq, Eq, Structural)]
pub enum SnapshotOrigin {
    Intraday,
    EndOfDay,
}

/// Why a contract was left out of the exposure, in the order the reasons are listed.
#[derive(Debug, Clone, Copy, PartialEq, Eq, Structural)]
pub enum ExclusionReason {
    MissingSpot,
    InvalidSpot,
    MissingGamma,
    InvalidGamma,
    MissingOpenInterest,
    InvalidOpenInterest,
    MissingMultiplier,
    InvalidMultiplier,
    InvalidStrike,
    ExpiredContract,
    MissingImpliedVolatility,
    InvalidImpliedVolatility,
    MissingForwardCarry,
    NumericOverflow,
}

/// The place of a reason in the listing order.
pub open spec fn reason_rank(r: ExclusionReason) -> int {
    match r {
        ExclusionReason::MissingSpot => 0,
        ExclusionReason::InvalidSpot => 1,
        ExclusionReason::MissingGamma => 2,
        ExclusionReason::InvalidGamma => 3,
        ExclusionReason::MissingOpenInterest => 4,
        ExclusionReason::InvalidOpenInterest => 5,
        ExclusionReason::MissingMultiplier => 6,
        ExclusionReason::InvalidMultiplier => 7,
        ExclusionReason::InvalidStrike => 8,
        ExclusionReason::ExpiredContract => 9,
        ExclusionReason::MissingImpliedVolatility => 10,
        ExclusionReason::InvalidImpliedVolatility => 11,
        ExclusionReason::MissingForwardCarry => 12,
        ExclusionReason::NumericOverflow => 13,
    }
}

proof fn lemma_reason_rank_injective(a: ExclusionReason, b: ExclusionReason)
    ensures
        reason_rank(a) == reason_rank(b) ==> a == b,
{
}

fn rank(r: ExclusionReason) -> (n: u8)
    ensures
        n == reason_rank(r),
{
    match r {
        ExclusionReason::MissingSpot => 0,
        ExclusionReason::InvalidSpot => 1,
        ExclusionReason::MissingGamma => 2,
        ExclusionReason::InvalidGamma => 3,
        ExclusionReason::MissingOpenInterest => 4,
        ExclusionReason::InvalidOpenInterest => 5,
        ExclusionReason::MissingMultiplier => 6,
        ExclusionReason::InvalidMultiplier => 7,
        ExclusionReason::InvalidStrike => 8,
        ExclusionReason::ExpiredContract => 9,
        ExclusionReason::MissingImpliedVolatility => 10,
        ExclusionReason::InvalidImpliedVolatility => 11,
        ExclusionReason::MissingForwardCarry => 12,
        ExclusionReason::NumericOverflow => 13,
    }
}

/// A contract left out, with every reason found for it.
#[derive(Debug, Clone, PartialEq, Eq)]
pub struct ExclusionSample {
    pub occ_symbol: String,
    pub reasons: Vec<ExclusionReason>,
}

/// Counts of the contracts considered, kept and left out, the number of exclusions by reason
/// (listed by reason, each reason once) and a bounded sample of the contracts left out.
#[derive(Debug, Clone, PartialEq, Eq)]
pub struct GammaExposureDiagnostics {
    pub total_contracts: u64,
    pub included_contracts: u64,
    pub excluded_contracts: u64,
    pub excluded_by_reason: Vec<(ExclusionReason, u64)>,
    pub samples: Vec<ExclusionSample>,
    pub sample_limit: usize,
}

/// Each reason is listed once, in reason order.
pub open spec fn reasons_sorted(v: Seq<(ExclusionReason, u64)>) -> bool {
    forall|i: int, j: int| 0 <= i < j < v.len() ==> reason_rank(#[trigger] v[i].0) < reason_rank(#[trigger] v[j].0)
}

/// The count listed for a reason, if it is listed.
pub open spec fn listed_count(v: Seq<(ExclusionReason, u64)>, r: ExclusionReason) -> Option<u64> {
    if exists|i: int| 0 <= i < v.len() && #[trigger] v[i].0 == r {
        Some(v[choose|i: int| 0 <= i < v.len() && #[trigger] v[i].0 == r].1)
    } else {
        None
    }
}

/// How often a reason occurs.
pub open spec fn occurrences(reasons: Seq<ExclusionReason>, r: ExclusionReason) -> nat
    decreases reasons.len(),
{
    if reasons.len() == 0 {
        0
    } else {
        occurrences(reasons.drop_last(), r) + if reasons.last() == r {
            1nat
        } else {
            0nat
        }
    }
}

/// A count raised by `k`; a reason that was not listed and does not occur stays unlisted.
pub open spec fn raised(c: Option<u64>, k: nat) -> Option<int> {
    match c {
        Some(n) => Some(n + k),
        None => if k == 0 {
            None
        } else {
            Some(k as int)
        },
    }
}

pub open spec fn as_int(c: Option<u64>) -> Option<int> {
    match c {
        Some(n) => Some(n as int),
        None => None,
    }
}

proof fn lemma_listed_at(v: Seq<(ExclusionReason, u64)>, i: int)
    requires
        reasons_sorted(v),
        0 <= i < v.len(),
    ensures
        listed_count(v, v[i].0) == Some(v[i].1),
{
    let r = v[i].0;
    let j = choose|j: int| 0 <= j < v.len() && #[trigger] v[j].0 == r;
    if j != i {
        if j < i {
            assert(reason_rank(v[j].0) < reason_rank(v[i].0));
        } else {
            assert(reason_rank(v[i].0) < reason_rank(v[j].0));
        }
    }
}

/// Adds one to the count of a reason, listing it where it was not.
fn count_reason(counts: &mut Vec<(ExclusionReason, u64)>, reason: ExclusionReason)
    requires
        reasons_sorted(old(counts)@),
        listed_count(old(counts)@, reason) matches Some(c) ==> c < u64::MAX,
    ensures
        reasons_sorted(final(counts)@),
        forall|r: ExclusionReason|
            #[trigger] as_int(listed_count(final(counts)@, r)) == if r == reason {
                raised(listed_count(old(counts)@, r), 1)
            } else {
                as_int(listed_count(old(counts)@, r))
            },
{
    let ghost before = counts@;
    let key = rank(reason);
    let mut slot: usize = 0;
    while slot < counts.len() && rank(counts[slot].0) < key
        invariant
            slot <= counts@.len(),
            counts@ == before,
            reasons_sorted(before),
            key == reason_rank(reason),
            forall|k: int| 0 <= k < slot ==> reason_rank(#[trigger] before[k].0) < key,
        decreases counts.len() - slot,
    {
        slot = slot + 1;
    }
    if slot < counts.len() && rank(counts[slot].0) == key {
        proof {
            lemma_reason_rank_injective(before[slot as int].0, reason);
            lemma_listed_at(before, slot as int);
        }
        let n = counts[slot].1;
        counts.set(slot, (reason, n + 1));
        proof {
            assert forall|r: ExclusionReason| #[trigger] as_int(listed_count(counts@, r)) == if r == reason {
                raised(listed_count(before, r), 1)
            } else {
                as_int(listed_count(before, r))
            } by {
                lemma_listed_at(counts@, slot as int);
                if r != reason {
                    if exists|i: int| 0 <= i < before.len() && #[trigger] before[i].0 == r {
                        let i = choose|i: int| 0 <= i < before.len() && #[trigger] before[i].0 == r;
                        lemma_listed_at(before, i);
                        lemma_listed_at(counts@, i);
                    } else {
                        assert(!exists|i: int| 0 <= i < counts@.len() && #[trigger] counts@[i].0 == r);
                    }
                }
            }
        }
    } else {
        proof {
            assert(!exists|i: int| 0 <= i < before.len() && #[trigger] before[i].0 == reason) by {
                if exists|i: int| 0 <= i < before.len() && #[trigger] before[i].0 == reason {
                    let i = choose|i: int| 0 <= i < before.len() && #[trigger] before[i].0 == reason;
                    if i > slot {
                        assert(reason_rank(before[slot as int].0) < reason_rank(before[i].0));
                    }
                }
            }
        }
        counts.insert(slot, (reason, 1));
        proof {
            assert forall|i: int, j: int| 0 <= i < j < counts@.len() implies reason_rank(
                #[trigger] counts@[i].0,
            ) < reason_rank(#[trigger] counts@[j].0) by {
                if j < slot {
                    assert(reason_rank(before[i].0) < reason_rank(before[j].0));
                } else if j == slot {
                } else if i > slot {
                    assert(reason_rank(before[i - 1].0) < reason_rank(before[j - 1].0));
                } else if i == slot {
                    lemma_reason_rank_injective(before[j - 1].0, reason);
                } else {
                    lemma_reason_rank_injective(before[j - 1].0, reason);
                }
            }
            assert forall|r: ExclusionReason| #[trigger] as_int(listed_count(counts@, r)) == if r == reason {
                raised(listed_count(before, r), 1)
            } else {
                as_int(listed_count(before, r))
            } by {
                lemma_listed_at(counts@, slot as int);
                if r != reason {
                    if exists|i: int| 0 <= i < before.len() && #[trigger] before[i].0 == r {
                        let i = choose|i: int| 0 <= i < before.len() && #[trigger] before[i].0 == r;
                        lemma_listed_at(before, i);
                        if i < slot {
                            lemma_listed_at(counts@, i);
                        } else {
                            lemma_listed_at(counts@, i + 1);
                        }
                    } else {
                        assert(!exists|i: int| 0 <= i < counts@.len() && #[trigger] counts@[i].0 == r) by {
                            if exists|i: int| 0 <= i < counts@.len() && #[trigger] counts@[i].0 == r {
                                let i = choose|i: int| 0 <= i < counts@.len() && #[trigger] counts@[i].0 == r;
                                if i < slot {
                                    assert(before[i].0 == r);
                                } else if i > slot {
                                    assert(before[i - 1].0 == r);
                                }
                            }
                        }
                    }
                }
            }
        }
    }
}

/// Records a contract left out: each of its reasons is counted, and the contract is kept as a
/// sample while fewer than `EXCLUSION_SAMPLE_LIMIT` are kept.
pub fn record_exclusion(
    occ_symbol: String,
    reasons: Vec<ExclusionReason>,
    excluded_by_reason: &mut Vec<(ExclusionReason, u64)>,
    samples: &mut Vec<ExclusionSample>,
)
    requires
        reasons_sorted(old(excluded_by_reason)@),
        forall|r: ExclusionReason|
            #[trigger] listed_count(old(excluded_by_reason)@, r) matches Some(c) ==> c + reasons@.len() <= u64::MAX,
    ensures
        reasons_sorted(final(excluded_by_reason)@),
        forall|r: ExclusionReason|
            #[trigger] as_int(listed_count(final(excluded_by_reason)@, r)) == raised(
                listed_count(old(excluded_by_reason)@, r),
                occurrences(reasons@, r),
            ),
        old(samples)@.len() < EXCLUSION_SAMPLE_LIMIT ==> final(samples)@ == old(samples)@.push(
            ExclusionSample { occ_symbol, reasons },
        ),
        old(samples)@.len() >= EXCLUSION_SAMPLE_LIMIT ==> final(samples)@ == old(samples)@,
{
    let ghost start = excluded_by_reason@;
    for k in 0..reasons.len()
        invariant
            reasons_sorted(excluded_by_reason@),
            forall|r: ExclusionReason|
                #[trigger] listed_count(start, r) matches Some(c) ==> c + reasons@.len() <= u64::MAX,
            forall|r: ExclusionReason|
                #[trigger] as_int(listed_count(excluded_by_reason@, r)) == raised(
                    listed_count(start, r),
                    occurrences(reasons@.take(k as int), r),
                ),
    {
        let reason = reasons[k];
        proof {
            assert(reasons@.take(k + 1).drop_last() =~= reasons@.take(k as int));
            assert(reasons@.take(k + 1).last() == reason);
            assert(as_int(listed_count(excluded_by_reason@, reason)) == raised(
                listed_count(start, reason),
                occurrences(reasons@.take(k as int), reason),
            ));
            lemma_occurrences_bound(reasons@.take(k as int), reason);
        }
        count_reason(excluded_by_reason, reason);
    }
    proof {
        assert(reasons@.take(reasons@.len() as int) =~= reasons@);
    }
    if samples.len() < EXCLUSION_SAMPLE_LIMIT {
        samples.push(ExclusionSample { occ_symbol, reasons });
    }
}

proof fn lemma_occurrences_bound(reasons: Seq<ExclusionReason>, r: ExclusionReason)
    ensures
        occurrences(reasons, r) <= reasons.len(),
    decreases reasons.len(),
{
    if reasons.len() > 0 {
        lemma_occurrences_bound(reasons.drop_last(), r);
    }
}

/// How a numeric input of a contract was found: absent, present but unusable
/// (not finite, or outside the range the measure accepts), or usable.
#[derive(Debug, Clone, Copy, PartialEq, Eq, Structural)]
pub enum InputState {
    Missing,
    Invalid,
    Usable,
}

/// The reason an input contributes: `missing` when absent, `invalid` when unusable.
pub open spec fn input_reasons(s: InputState, missing: ExclusionReason, invalid: ExclusionReason) -> Seq<ExclusionReason> {
    match s {
        InputState::Missing => seq![missing],
        InputState::Invalid => seq![invalid],
        InputState::Usable => Seq::empty(),
    }
}

/// Every reason an observed contract is left out of the exposure, in listing order:
/// the spot, the gamma, the open interest, the multiplier, then the strike.
pub open spec fn spec_contract_exclusion_reasons(
    spot: InputState,
    gamma: InputState,
    open_interest: InputState,
    multiplier: InputState,
    strike_finite: bool,
) -> Seq<ExclusionReason> {
    input_reasons(spot, ExclusionReason::MissingSpot, ExclusionReason::InvalidSpot) + input_reasons(
        gamma,
        ExclusionReason::MissingGamma,
        ExclusionReason::InvalidGamma,
    ) + input_reasons(open_interest, ExclusionReason::MissingOpenInterest, ExclusionReason::InvalidOpenInterest)
        + input_reasons(multiplier, ExclusionReason::MissingMultiplier, ExclusionReason::InvalidMultiplier)
        + if strike_finite {
        Seq::<ExclusionReason>::empty()
    } else {
        seq![ExclusionReason::InvalidStrike]
    }
}

fn push_input_reason(
    reasons: &mut Vec<ExclusionReason>,
    s: InputState,
    missing: ExclusionReason,
    invalid: ExclusionReason,
)
    ensures
        final(reasons)@ == old(reasons)@ + input_reasons(s, missing, invalid),
{
    match s {
        InputState::Missing => reasons.push(missing),
        InputState::Invalid => reasons.push(invalid),
        InputState::Usable => {},
    }
    assert(reasons@ =~= old(reasons)@ + input_reasons(s, missing, invalid));
}

/// The reasons an observed contract is left out of the exposure; none when every
/// input is usable.
pub fn contract_exclusion_reasons(
    spot: InputState,
    gamma: InputState,
    open_interest: InputState,
    multiplier: InputState,
    strike_finite: bool,
) -> (r: Vec<ExclusionReason>)
    ensures
        r@ == spec_contract_exclusion_reasons(spot, gamma, open_interest, multiplier, strike_finite),
{
    let mut reasons: Vec<ExclusionReason> = Vec::new();
    push_input_reason(&mut reasons, spot, ExclusionReason::MissingSpot, ExclusionReason::InvalidSpot);
    push_input_reason(&mut reasons, gamma, ExclusionReason::MissingGamma, ExclusionReason::InvalidGamma);
    push_input_reason(
        &mut reasons,
        open_interest,
        ExclusionReason::MissingOpenInterest,
        ExclusionReason::InvalidOpenInterest,
    );
    push_input_reason(
        &mut reasons,
        multiplier,
        ExclusionReason::MissingMultiplier,
        ExclusionReason::InvalidMultiplier,
    );
    if !strike_finite {
        reasons.push(ExclusionReason::InvalidStrike);
    }
    assert(reasons@ =~= spec_contract_exclusion_reasons(spot, gamma, open_interest, multiplier, strike_finite));
    reasons
}

/// The first reason a contract is left out of the modeled profile, checked in this
/// order: an expired expiration, the implied volatility, the open interest, the
/// multiplier, the strike, then the forward-carry inputs of its expiration.
pub open spec fn spec_modeled_exclusion_reason(
    expired: bool,
    implied_volatility: InputState,
    open_interest: InputState,
    multiplier: InputState,
    strike_usable: bool,
    has_forward_carry: bool,
) -> Option<ExclusionReason> {
    if expired {
        Some(ExclusionReason::ExpiredContract)
    } else if implied_volatility == InputState::Missing {
        Some(ExclusionReason::MissingImpliedVolatility)
    } else if implied_volatility == InputState::Invalid {
        Some(ExclusionReason::InvalidImpliedVolatility)
    } else if open_interest == InputState::Missing {
        Some(ExclusionReason::MissingOpenInterest)
    } else if open_interest == InputState::Invalid {
        Some(ExclusionReason::InvalidOpenInterest)
    } else if multiplier == InputState::Missing {
        Some(ExclusionReason::MissingMultiplier)
    } else if multiplier == InputState::Invalid {
        Some(ExclusionReason::InvalidMultiplier)
    } else if !strike_usable {
        Some(ExclusionReason::InvalidStrike)
    } else if !has_forward_carry {
        Some(ExclusionReason::MissingForwardCarry)
    } else {
        None
    }
}

/// Why a contract is left out of the modeled profile, if it is.
pub fn modeled_exclusion_reason(
    expired: bool,
    implied_volatility: InputState,
    open_interest: InputState,
    multiplier: InputState,
    strike_usable: bool,
    has_forward_carry: bool,
) -> (r: Option<ExclusionReason>)
    ensures
        r == spec_modeled_exclusion_reason(
            expired,
            implied_volatility,
            open_interest,
            multiplier,
            strike_usable,
            has_forward_carry,
        ),
{
    if expired {
        Some(ExclusionReason::ExpiredContract)
    } else if implied_volatility == InputState::Missing {
        Some(ExclusionReason::MissingImpliedVolatility)
    } else if implied_volatility == InputState::Invalid {
        Some(ExclusionReason::InvalidImpliedVolatility)
    } else if open_interest == InputState::Missing {
        Some(ExclusionReason::MissingOpenInterest)
    } else if open_interest == InputState::Invalid {
        Some(ExclusionReason::InvalidOpenInterest)
    } else if multiplier == InputState::Missing {
        Some(ExclusionReason::MissingMultiplier)
    } else if multiplier == InputState::Invalid {
        Some(ExclusionReason::InvalidMultiplier)
    } else if !strike_usable {
        Some(ExclusionReason::InvalidStrike)
    } else if !has_forward_carry {
        Some(ExclusionReason::MissingForwardCarry)
    } else {
        None
    }
}

/// The moment an exposure describes: when the spot was observed; failing that, the
/// snapshot's time when the provider's time zone was checked, or when an end-of-day
/// snapshot carries no provider timestamp; otherwise unknown.
pub open spec fn spec_factual_as_of(
    spot_observed_at: Option<UtcInstant>,
    provider_timezone: Option<ProviderTimestampTimezone>,
    snapshot_time: UtcInstant,
    origin: SnapshotOrigin,
) -> Option<UtcInstant> {
    match spot_observed_at {
        Some(t) => Some(t),
        None => match provider_timezone {
            Some(ProviderTimestampTimezone::VerifiedOffset) => Some(snapshot_time),
            Some(ProviderTimestampTimezone::Unverified) => None,
            None => if origin == SnapshotOrigin::EndOfDay {
                Some(snapshot_time)
            } else {
                None
            },
        },
    }
}

/// The moment an exposure describes, from what the snapshot says of its own time.
pub fn factual_as_of(
    spot_observed_at: Option<UtcInstant>,
    provider_timezone: Option<ProviderTimestampTimezone>,
    snapshot_time: UtcInstant,
    origin: SnapshotOrigin,
) -> (r: Option<UtcInstant>)
    ensures
        r == spec_factual_as_of(spot_observed_at, provider_timezone, snapshot_time, origin),
{
    match spot_observed_at {
        Some(t) => Some(t),
        None => match provider_timezone {
            Some(ProviderTimestampTimezone::VerifiedOffset) => Some(snapshot_time),
            Some(ProviderTimestampTimezone::Unverified) => None,
            None => match origin {
                SnapshotOrigin::EndOfDay => Some(snapshot_time),
                SnapshotOrigin::Intraday => None,
            },
        },
    }
}

/// Reasons listed in strictly increasing rank, each within `[lo, hi)`.
spec fn ranked_within(r: Seq<ExclusionReason>, lo: int, hi: int) -> bool {
    &&& forall|i: int, j: int| 0 <= i < j < r.len() ==> reason_rank(r[i]) < reason_rank(r[j])
    &&& forall|i: int| 0 <= i < r.len() ==> lo <= #[trigger] reason_rank(r[i]) < hi
}

proof fn lemma_ranked_concat(p: Seq<ExclusionReason>, q: Seq<ExclusionReason>, lo: int, mid: int, hi: int)
    requires
        lo <= mid <= hi,
        ranked_within(p, lo, mid),
        ranked_within(q, mid, hi),
    ensures
        ranked_within(p + q, lo, hi),
        forall|x: ExclusionReason| (p + q).contains(x) <==> p.contains(x) || q.contains(x),
{
    let r = p + q;
    assert forall|i: int, j: int| 0 <= i < j < r.len() implies reason_rank(r[i]) < reason_rank(r[j]) by {
        if j < p.len() {
            assert(r[i] == p[i] && r[j] == p[j]);
        } else if i >= p.len() {
            assert(r[i] == q[i - p.len()] && r[j] == q[j - p.len()]);
        } else {
            assert(r[i] == p[i] && r[j] == q[j - p.len()]);
            assert(reason_rank(p[i]) < mid);
            assert(mid <= reason_rank(q[j - p.len()]));
        }
    }
    assert forall|i: int| 0 <= i < r.len() implies lo <= #[trigger] reason_rank(r[i]) < hi by {
        if i < p.len() {
            assert(r[i] == p[i]);
            assert(lo <= reason_rank(p[i]) < mid);
        } else {
            assert(r[i] == q[i - p.len()]);
            assert(mid <= reason_rank(q[i - p.len()]) < hi);
        }
    }
    assert forall|x: ExclusionReason| r.contains(x) <==> p.contains(x) || q.contains(x) by {
        if r.contains(x) {
            let i = choose|i: int| 0 <= i < r.len() && r[i] == x;
            if i < p.len() {
                assert(p[i] == x);
            } else {
                assert(q[i - p.len()] == x);
            }
        }
        if p.contains(x) {
            let i = choose|i: int| 0 <= i < p.len() && p[i] == x;
            assert(r[i] == x);
        }
        if q.contains(x) {
            let i = choose|i: int| 0 <= i < q.len() && q[i] == x;
            assert(r[p.len() + i] == x);
        }
    }
}

proof fn lemma_input_reasons(s: InputState, missing: ExclusionReason, invalid: ExclusionReason)
    requires
        reason_rank(invalid) == reason_rank(missing) + 1,
    ensures
        ranked_within(input_reasons(s, missing, invalid), reason_rank(missing), reason_rank(missing) + 2),
        forall|x: ExclusionReason|
            input_reasons(s, missing, invalid).contains(x) <==> (x == missing && s == InputState::Missing)
                || (x == invalid && s == InputState::Invalid),
        (input_reasons(s, missing, invalid).len() == 0) <==> s == InputState::Usable,
{
    let r = input_reasons(s, missing, invalid);
    assert forall|x: ExclusionReason| r.contains(x) <==> (x == missing && s == InputState::Missing) || (x
        == invalid && s == InputState::Invalid) by {
        if r.len() > 0 {
            assert(r[0] == missing || r[0] == invalid);
        }
    }
}

/// A contract is left out exactly when one of its inputs is not usable or its strike is not
/// finite: every input that is missing yields its `Missing…` reason and every one that is
/// invalid its `Invalid…` reason, a strike that is not finite yields `InvalidStrike`, each
/// reason at most once and in listing order, and no other reason is listed.
pub proof fn law_exclusion_reasons_follow_the_inputs(
    spot: InputState,
    gamma: InputState,
    open_interest: InputState,
    multiplier: InputState,
    strike_finite: bool,
)
    ensures
        ({
            let r = spec_contract_exclusion_reasons(spot, gamma, open_interest, multiplier, strike_finite);
            &&& (r.len() == 0) <==> (spot == InputState::Usable && gamma == InputState::Usable
                && open_interest == InputState::Usable && multiplier == InputState::Usable
                && strike_finite)
            &&& r.contains(ExclusionReason::MissingSpot) <==> spot == InputState::Missing
            &&& r.contains(ExclusionReason::InvalidSpot) <==> spot == InputState::Invalid
            &&& r.contains(ExclusionReason::MissingGamma) <==> gamma == InputState::Missing
            &&& r.contains(ExclusionReason::InvalidGamma) <==> gamma == InputState::Invalid
            &&& r.contains(ExclusionReason::MissingOpenInterest) <==> open_interest
                == InputState::Missing
            &&& r.contains(ExclusionReason::InvalidOpenInterest) <==> open_interest
                == InputState::Invalid
            &&& r.contains(ExclusionReason::MissingMultiplier) <==> multiplier == InputState::Missing
            &&& r.contains(ExclusionReason::InvalidMultiplier) <==> multiplier == InputState::Invalid
            &&& r.contains(ExclusionReason::InvalidStrike) <==> !strike_finite
            &&& forall|i: int, j: int| 0 <= i < j < r.len() ==> reason_rank(r[i]) < reason_rank(r[j])
            &&& forall|i: int| 0 <= i < r.len() ==> #[trigger] reason_rank(r[i]) <= reason_rank(
                ExclusionReason::InvalidStrike,
            )
        }),
{
    let a = input_reasons(spot, ExclusionReason::MissingSpot, ExclusionReason::InvalidSpot);
    let b = input_reasons(gamma, ExclusionReason::MissingGamma, ExclusionReason::InvalidGamma);
    let c = input_reasons(open_interest, ExclusionReason::MissingOpenInterest, ExclusionReason::InvalidOpenInterest);
    let d = input_reasons(multiplier, ExclusionReason::MissingMultiplier, ExclusionReason::InvalidMultiplier);
    let e = if strike_finite {
        Seq::<ExclusionReason>::empty()
    } else {
        seq![ExclusionReason::InvalidStrike]
    };
    lemma_input_reasons(spot, ExclusionReason::MissingSpot, ExclusionReason::InvalidSpot);
    lemma_input_reasons(gamma, ExclusionReason::MissingGamma, ExclusionReason::InvalidGamma);
    lemma_input_reasons(open_interest, ExclusionReason::MissingOpenInterest, ExclusionReason::InvalidOpenInterest);
    lemma_input_reasons(multiplier, ExclusionReason::MissingMultiplier, ExclusionReason::InvalidMultiplier);
    assert(ranked_within(e, 8, 9));
    assert forall|x: ExclusionReason| e.contains(x) <==> (x == ExclusionReason::InvalidStrike && !strike_finite) by {
        if e.len() > 0 {
            assert(e[0] == ExclusionReason::InvalidStrike);
        }
    }
    lemma_ranked_concat(a, b, 0, 2, 4);
    lemma_ranked_concat(a + b, c, 0, 4, 6);
    lemma_ranked_concat(a + b + c, d, 0, 6, 8);
    lemma_ranked_concat(a + b + c + d, e, 0, 8, 9);
    let r = spec_contract_exclusion_reasons(spot, gamma, open_interest, multiplier, strike_finite);
    assert(r =~= a + b + c + d + e);
    assert forall|x: ExclusionReason| r.contains(x) <==> a.contains(x) || b.contains(x) || c.contains(x) || d.contains(x)
        || e.contains(x) by {
        assert((a + b + c + d + e).contains(x) <==> (a + b + c + d).contains(x) || e.contains(x));
        assert((a + b + c + d).contains(x) <==> (a + b + c).contains(x) || d.contains(x));
        assert((a + b + c).contains(x) <==> (a + b).contains(x) || c.contains(x));
        assert((a + b).contains(x) <==> a.contains(x) || b.contains(x));
    }
    assert(r.contains(ExclusionReason::MissingSpot) <==> spot == InputState::Missing);
    assert(r.contains(ExclusionReason::InvalidSpot) <==> spot == InputState::Invalid);
    assert(r.contains(ExclusionReason::MissingGamma) <==> gamma == InputState::Missing);
    assert(r.contains(ExclusionReason::InvalidGamma) <==> gamma == InputState::Invalid);
    assert(r.contains(ExclusionReason::MissingOpenInterest) <==> open_interest == InputState::Missing);
    assert(r.contains(ExclusionReason::InvalidOpenInterest) <==> open_interest == InputState::Invalid);
    assert(r.contains(ExclusionReason::MissingMultiplier) <==> multiplier == InputState::Missing);
    assert(r.contains(ExclusionReason::InvalidMultiplier) <==> multiplier == InputState::Invalid);
    assert(r.contains(ExclusionReason::InvalidStrike) <==> !strike_finite);
}

} // verus!
