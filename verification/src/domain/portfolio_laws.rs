//! What recording a trade does to the positions, the cash, the FIFO tax lots and the realized
//! gains of a portfolio, stated over the values involved. Where a law rests on rust_decimal's
//! arithmetic, it takes as hypothesis what the wrappers around rust_decimal state of it
//! (`exact_decimal_arithmetic`).

use vstd::prelude::*;

use crate::decimal::{
    decimal_quotient, difference_as_computed, sum_as_computed, product_as_computed, difference_exact, exact_decimal_arithmetic, fits_at, lemma_as_computed_units, lemma_units_sign, max_scale,
    product_exact, representable, sum_exact, units, MAX_MANTISSA, MAX_SCALE,
};
use crate::domain::portfolio::{
    PortfolioError,
    apply_posting, apply_postings, cash_totals, event_postings, fee_posting, position_totals, side_sign,
    dispose, fifo_step, gains_step, lots_available, quantity_available, spec_gross_amount_for_tax, tax_fees,
    LotValue, RealizedValue, spec_money_for_tax, money_value, realize_gains, spec_gross_amount, trade_fees_total, GainLotValue, Money,
    CashMovement, CashMovementKind, CurrencyExchange, PortfolioEvent, Trade, TradeSide,
};

verus! {

/// The quantity held of an instrument: zero when there is none.
pub open spec fn held_quantity(m: Map<(bool, Seq<char>), (int, nat)>, k: (bool, Seq<char>)) -> (int, nat) {
    if m.contains_key(k) {
        m[k]
    } else {
        (0int, 0nat)
    }
}

/// `sign × x` then `before + sign × x`, as rust_decimal computes them, for a sign of ±1: when
/// the exact result fits at the larger of the two scales, it is the exact result.
proof fn lemma_signed_add(
    before: (int, nat),
    sign: (int, nat),
    x: (int, nat),
    product: Option<(int, nat)>,
    sum_of: spec_fn((int, nat)) -> Option<(int, nat)>,
)
    requires
        exact_decimal_arithmetic(),
        representable(before),
        representable(x),
        sign == (1int, 0nat) || sign == (-1int, 0nat),
        product == crate::decimal::decimal_product(sign, x),
        forall|p: (int, nat)| #[trigger] sum_of(p) == crate::decimal::decimal_sum(before, p),
        fits_at(units(before) + sign.0 * units(x), max_scale(before, x)),
    ensures
        product matches Some(p) && sum_of(p) matches Some(v) && units(v) == units(before) + sign.0
            * units(x),
{
    lemma_units_sign(x);
    lemma_units_sign(before);
    assert(representable(sign));
    assert(product_exact(sign, x));
    lemma_as_computed_units(sign, x);
    let p = crate::decimal::product_as_computed(sign, x);
    assert(product == Some(p));
    let pw = crate::decimal::pow10((MAX_SCALE - x.1) as nat);
    assert((-x.0) * pw == -(x.0 * pw)) by (nonlinear_arith);
    assert(units(p) == sign.0 * units(x));
    assert(representable(p));
    assert(sum_exact(before, p)) by {
        if before.0 != 0 && p.0 != 0 {
            assert(max_scale(before, p) == max_scale(before, x));
        }
    }
    lemma_as_computed_units(before, p);
}

/// Recording a trade moves the position of its instrument by its quantity, up for a buy and
/// down for a sell, and leaves every other position as it was; so a sell of the whole quantity
/// held leaves no position. (Where rust_decimal's sums and products are exact.)
pub proof fn law_trade_moves_its_position(events: Seq<PortfolioEvent>, t: Trade, k: (bool, Seq<char>))
    requires
        exact_decimal_arithmetic(),
        representable(t.quantity@),
        position_totals(events) is Some,
        representable(held_quantity(position_totals(events)->0, k)),
    ensures
        ({
            let before = held_quantity(position_totals(events)->0, k);
            let after = position_totals(events.push(PortfolioEvent::Trade(t)));
            let moved = match t.side {
                TradeSide::Buy => units(t.quantity@),
                TradeSide::Sell => -units(t.quantity@),
            };
            &&& k != t.instrument@ ==> (after matches Some(m) ==> held_quantity(m, k) == before)
            &&& k == t.instrument@ && fits_at(units(before) + moved, max_scale(before, t.quantity@))
                ==> (after matches Some(m) && units(held_quantity(m, k)) == units(before) + moved)
            &&& k == t.instrument@ && t.side == TradeSide::Sell && units(before) == units(t.quantity@)
                ==> (after matches Some(m) && held_quantity(m, k).0 == 0)
        }),
{
    let e2 = events.push(PortfolioEvent::Trade(t));
    assert(e2.drop_last() =~= events);
    let m = position_totals(events)->0;
    let before = held_quantity(m, k);
    let sign = side_sign(t.side);
    let moved = match t.side {
        TradeSide::Buy => units(t.quantity@),
        TradeSide::Sell => -units(t.quantity@),
    };
    assert(moved == sign.0 * units(t.quantity@));
    if k == t.instrument@ {
        if t.side == TradeSide::Sell && units(before) == units(t.quantity@) {
            assert(units(before) + moved == 0);
            assert(max_scale(before, t.quantity@) <= MAX_SCALE);
            assert(fits_at(0, max_scale(before, t.quantity@))) by {
                let pw = crate::decimal::pow10((MAX_SCALE - max_scale(before, t.quantity@)) as nat);
                crate::decimal::lemma_pow10_positive((MAX_SCALE - max_scale(before, t.quantity@)) as nat);
                assert(0int % pw == 0 && 0int / pw == 0) by (nonlinear_arith)
                    requires
                        pw >= 1,
                ;
            }
        }
        if fits_at(units(before) + moved, max_scale(before, t.quantity@)) {
            let sum_of = |p: (int, nat)| crate::decimal::decimal_sum(before, p);
            lemma_signed_add(before, sign, t.quantity@, crate::decimal::decimal_product(sign, t.quantity@), sum_of);
            let v = sum_of(crate::decimal::decimal_product(sign, t.quantity@)->0)->0;
            lemma_units_sign(v);
        }
    }
}

/// The cash held in a currency: zero when there is none.
pub open spec fn held_balance(m: Map<Seq<char>, (int, nat)>, c: Seq<char>) -> (int, nat) {
    if m.contains_key(c) {
        m[c]
    } else {
        (0int, 0nat)
    }
}

/// The gross amount of a trade is a decimal whenever its quantity and price are.
proof fn lemma_gross_representable(t: Trade)
    requires
        exact_decimal_arithmetic(),
        representable(t.quantity@),
        representable(t.unit_price.amount@),
    ensures
        spec_gross_amount(t) matches Some(g) ==> representable(g),
{
    let multiplier = if t.instrument@.0 {
        (100int, 0nat)
    } else {
        (1int, 0nat)
    };
    assert(representable(multiplier));
    let q = crate::decimal::decimal_product(t.quantity@, multiplier);
    if q is Some {
        assert(representable(q->0));
        let g = crate::decimal::decimal_product(q->0, t.unit_price.amount@);
        if g is Some {
            assert(representable(g->0));
        }
    }
}

/// Recording a trade without fees moves the cash of its price currency by its gross amount,
/// down for a buy and up for a sell, and leaves the cash of every other currency as it was.
/// (Where rust_decimal's sums and products are exact.)
pub proof fn law_fee_free_trade_moves_cash(events: Seq<PortfolioEvent>, t: Trade, c: Seq<char>)
    requires
        exact_decimal_arithmetic(),
        t.fees@.len() == 0,
        representable(t.quantity@),
        representable(t.unit_price.amount@),
        cash_totals(events) is Some,
        representable(held_balance(cash_totals(events)->0, c)),
        spec_gross_amount(t) is Some,
    ensures
        ({
            let before = held_balance(cash_totals(events)->0, c);
            let gross = spec_gross_amount(t)->0;
            let after = cash_totals(events.push(PortfolioEvent::Trade(t)));
            let moved = match t.side {
                TradeSide::Buy => -units(gross),
                TradeSide::Sell => units(gross),
            };
            &&& c != t.unit_price.currency@ ==> (after matches Some(m) ==> held_balance(m, c) == before)
            &&& c == t.unit_price.currency@ && fits_at(units(before) + moved, max_scale(before, gross))
                ==> (after matches Some(m) && units(held_balance(m, c)) == units(before) + moved)
        }),
{
    let e2 = events.push(PortfolioEvent::Trade(t));
    assert(e2.drop_last() =~= events);
    assert(e2.last() == PortfolioEvent::Trade(t));
    let m = cash_totals(events)->0;
    let gross = spec_gross_amount(t)->0;
    let sign = match t.side {
        TradeSide::Buy => (-1int, 0nat),
        TradeSide::Sell => (1int, 0nat),
    };
    let ps = event_postings(PortfolioEvent::Trade(t))->0;
    assert(ps =~= seq![(t.unit_price.currency@, sign, gross)]);
    assert(ps.drop_last() =~= Seq::<(Seq<char>, (int, nat), (int, nat))>::empty());
    assert(apply_postings(m, ps.drop_last()) == Some(m));
    assert(apply_postings(m, ps) == apply_posting(m, (t.unit_price.currency@, sign, gross)));
    assert(cash_totals(e2) == apply_posting(m, (t.unit_price.currency@, sign, gross)));
    let before = held_balance(m, c);
    let moved = match t.side {
        TradeSide::Buy => -units(gross),
        TradeSide::Sell => units(gross),
    };
    lemma_gross_representable(t);
    assert(moved == sign.0 * units(gross));
    if c == t.unit_price.currency@ && fits_at(units(before) + moved, max_scale(before, gross)) {
        let sum_of = |p: (int, nat)| crate::decimal::decimal_sum(before, p);
        lemma_signed_add(before, sign, gross, crate::decimal::decimal_product(sign, gross), sum_of);
    }
}

/// A sell realizes its gains at its net amount per unit: its gross amount less the sum of its
/// fees, the difference as rust_decimal gives it exactly, divided by its quantity. Whenever its
/// instrument's lots hold what it sells, it disposes of its whole quantity against them, oldest
/// first, at that unit amount, adding to the gains of its currency.
pub proof fn law_sell_realizes_gains_at_its_net_unit_amount(
    state: (Seq<GainLotValue>, Map<Seq<char>, (int, nat)>),
    t: Trade,
)
    requires
        exact_decimal_arithmetic(),
        t.side == TradeSide::Sell,
    ensures
        ({
            let currency = t.unit_price.currency@;
            let available = quantity_available(state.0, t.instrument@, state.0.len() as int);
            let fees_total = trade_fees_total(t, currency, t.fees@.len() as int);
            let fees = (fees_total->0)->Ok_0;
            let gross = spec_gross_amount(t)->0;
            (fees_total matches Some(Ok(_))) && spec_gross_amount(t) is Some && representable(gross)
                && representable(fees) && difference_exact(gross, fees) && available is Some && units(
                available->0,
            ) >= units(t.quantity@) ==> gains_step(state, t) == match decimal_quotient(
                difference_as_computed(gross, fees),
                t.quantity@,
            ) {
                None => None,
                Some(unit) => realize_gains(
                    state.0,
                    0,
                    t.quantity@,
                    t.instrument@,
                    unit,
                    currency,
                    state.1,
                ),
            }
        }),
        ({
            let currency = t.unit_price.currency@;
            let available = quantity_available(state.0, t.instrument@, state.0.len() as int);
            (trade_fees_total(t, currency, t.fees@.len() as int) matches Some(Ok(_)))
                && spec_gross_amount(t) is Some && available is Some && units(available->0) < units(
                t.quantity@,
            ) ==> gains_step(state, t) == Some(
                Err::<(Seq<GainLotValue>, Map<Seq<char>, (int, nat)>), _>(
                    PortfolioError::UnsupportedShortDisposal(t.id),
                ),
            )
        }),
{
}

/// In the FIFO projection a sell is disposed of at its net amount per unit in euros: its gross
/// amount in euros less the sum of its fees in euros, the difference as rust_decimal gives it
/// exactly, divided by its quantity. Whenever its instrument's lots hold what it sells, it
/// disposes of its whole quantity against them, oldest first, at that unit amount, and its
/// realized lots follow those already realized.
pub proof fn law_sell_is_disposed_at_its_net_unit_amount(
    state: (Seq<LotValue>, Seq<RealizedValue>),
    t: Trade,
)
    requires
        exact_decimal_arithmetic(),
        t.side == TradeSide::Sell,
    ensures
        ({
            let available = lots_available(state.0, t.instrument@, state.0.len() as int);
            let fees_total = tax_fees(t, t.fees@.len() as int);
            let fees = (fees_total->0)->Ok_0;
            let gross_total = spec_gross_amount_for_tax(t);
            let gross = ((gross_total->0)->Ok_0).0;
            (fees_total matches Some(Ok(_))) && (gross_total matches Some(Ok(_))) && representable(gross)
                && representable(fees) && difference_exact(gross, fees) && available is Some && units(
                available->0,
            ) >= units(t.quantity@) ==> fifo_step(state, t) == match decimal_quotient(
                difference_as_computed(gross, fees),
                t.quantity@,
            ) {
                None => None,
                Some(unit) => match dispose(state.0, 0, t.quantity@, t.instrument@, unit, t.id@) {
                    None => None,
                    Some((lots, realized)) => Some(Ok::<_, PortfolioError>((lots, state.1 + realized))),
                },
            }
        }),
        ({
            let available = lots_available(state.0, t.instrument@, state.0.len() as int);
            let fees_total = tax_fees(t, t.fees@.len() as int);
            let fees = (fees_total->0)->Ok_0;
            let gross_total = spec_gross_amount_for_tax(t);
            let gross = ((gross_total->0)->Ok_0).0;
            (fees_total matches Some(Ok(_))) && (gross_total matches Some(Ok(_))) && representable(gross)
                && representable(fees) && difference_exact(gross, fees) && decimal_quotient(
                difference_as_computed(gross, fees),
                t.quantity@,
            ) is Some && available is Some && units(available->0) < units(t.quantity@) ==> fifo_step(
                state,
                t,
            ) == Some(
                Err::<(Seq<LotValue>, Seq<RealizedValue>), _>(PortfolioError::UnsupportedShortDisposal(t.id)),
            )
        }),
{
}

/// Every lot that a disposal realizes is one of the instrument's lots given up to the disposing
/// trade: its proceeds are the matched quantity times the unit amount of the disposal, and its
/// gain is its proceeds less its cost, the matched quantity times the lot's unit cost.
pub proof fn law_disposal_realizes_proceeds_less_cost(
    lots: Seq<LotValue>,
    j: int,
    remaining: (int, nat),
    instrument: (bool, Seq<char>),
    unit: (int, nat),
    disposal_id: Seq<char>,
)
    ensures
        dispose(lots, j, remaining, instrument, unit, disposal_id) matches Some((after, realized))
            ==> forall|i: int|
            0 <= i < realized.len() ==> {
                let r = #[trigger] realized[i];
                &&& r.1 == disposal_id
                &&& r.2 == instrument
                &&& exists|k: int|
                    0 <= k < lots.len() && lots[k].1 == instrument && lots[k].0 == r.0
                        && crate::decimal::decimal_product(r.3, lots[k].4) == Some(r.4)
                &&& crate::decimal::decimal_product(r.3, unit) == Some(r.5)
                &&& crate::decimal::decimal_difference(r.5, r.4) == Some(r.6)
            },
    decreases lots.len() - j,
{
    if 0 <= j < lots.len() {
        let lot = lots[j];
        if lot.1 != instrument || lot.3.0 == 0 {
            law_disposal_realizes_proceeds_less_cost(lots, j + 1, remaining, instrument, unit, disposal_id);
        } else if remaining.0 != 0 {
            let matched = crate::domain::portfolio::lesser(remaining, lot.3);
            let cost = crate::decimal::decimal_product(matched, lot.4);
            let proceeds = crate::decimal::decimal_product(matched, unit);
            let left = crate::decimal::decimal_difference(lot.3, matched);
            let rest = crate::decimal::decimal_difference(remaining, matched);
            if cost is Some && proceeds is Some && crate::decimal::decimal_difference(proceeds->0, cost->0) is Some
                && left is Some && rest is Some {
                let lots2 = lots.update(j, (lot.0, lot.1, lot.2, left->0, lot.4));
                law_disposal_realizes_proceeds_less_cost(lots2, j + 1, rest->0, instrument, unit, disposal_id);
                match dispose(lots, j, remaining, instrument, unit, disposal_id) {
                    Some((after, realized)) => {
                        let tail = (dispose(lots2, j + 1, rest->0, instrument, unit, disposal_id)->0).1;
                        assert forall|i: int| 0 <= i < realized.len() implies {
                            let r = #[trigger] realized[i];
                            &&& r.1 == disposal_id
                            &&& r.2 == instrument
                            &&& exists|k: int|
                                0 <= k < lots.len() && lots[k].1 == instrument && lots[k].0 == r.0
                                    && crate::decimal::decimal_product(r.3, lots[k].4) == Some(r.4)
                            &&& crate::decimal::decimal_product(r.3, unit) == Some(r.5)
                            &&& crate::decimal::decimal_difference(r.5, r.4) == Some(r.6)
                        } by {
                            if i == 0 {
                                assert(lots[j].0 == realized[0].0);
                            } else {
                                let r = realized[i];
                                assert(r == tail[i - 1]);
                                let k = choose|k: int|
                                    0 <= k < lots2.len() && lots2[k].1 == instrument && lots2[k].0 == r.0
                                        && crate::decimal::decimal_product(r.3, lots2[k].4) == Some(r.4);
                                assert(lots[k].1 == instrument && lots[k].0 == r.0 && lots[k].4 == lots2[k].4);
                            }
                        }
                    },
                    None => {},
                }
            }
        }
    }
}

/// In the FIFO projection a buy opens one lot, after the lots already open, holding its
/// quantity at its cost per unit in euros: its gross amount in euros plus the sum of its fees in
/// euros, the sum as rust_decimal gives it exactly, divided by its quantity. The lots realized
/// so far stay as they were.
pub proof fn law_buy_opens_a_lot_at_its_unit_cost(state: (Seq<LotValue>, Seq<RealizedValue>), t: Trade)
    requires
        exact_decimal_arithmetic(),
        t.side == TradeSide::Buy,
    ensures
        ({
            let fees_total = tax_fees(t, t.fees@.len() as int);
            let fees = (fees_total->0)->Ok_0;
            let gross_total = spec_gross_amount_for_tax(t);
            let gross = ((gross_total->0)->Ok_0).0;
            (fees_total matches Some(Ok(_))) && (gross_total matches Some(Ok(_))) && representable(gross)
                && representable(fees) && sum_exact(gross, fees) ==> fifo_step(state, t) == match decimal_quotient(
                sum_as_computed(gross, fees),
                t.quantity@,
            ) {
                None => None,
                Some(unit_cost) => Some(
                    Ok::<_, PortfolioError>(
                        (
                            state.0.push(
                                (
                                    t.id@,
                                    t.instrument@,
                                    t.executed_at.micros as int,
                                    t.quantity@,
                                    unit_cost,
                                ),
                            ),
                            state.1,
                        ),
                    ),
                ),
            }
        }),
{
}

/// For the realized gains a buy opens one lot, after those already open, holding its quantity
/// at its cost per unit in its price currency: its gross amount plus the sum of its fees, the
/// sum as rust_decimal gives it exactly, divided by its quantity. The gains stay as they were.
pub proof fn law_buy_opens_a_gain_lot_at_its_unit_cost(
    state: (Seq<GainLotValue>, Map<Seq<char>, (int, nat)>),
    t: Trade,
)
    requires
        exact_decimal_arithmetic(),
        t.side == TradeSide::Buy,
    ensures
        ({
            let currency = t.unit_price.currency@;
            let fees_total = trade_fees_total(t, currency, t.fees@.len() as int);
            let fees = (fees_total->0)->Ok_0;
            let gross = spec_gross_amount(t)->0;
            (fees_total matches Some(Ok(_))) && spec_gross_amount(t) is Some && representable(gross)
                && representable(fees) && sum_exact(gross, fees) ==> gains_step(state, t) == match decimal_quotient(
                sum_as_computed(gross, fees),
                t.quantity@,
            ) {
                None => None,
                Some(unit_cost) => Some(
                    Ok::<_, PortfolioError>(
                        (state.0.push((t.instrument@, t.quantity@, unit_cost, currency)), state.1),
                    ),
                ),
            }
        }),
{
}

/// One posting of `sign × amount` to a currency, for a sign of ±1: the currency's cash moves
/// by it when the exact result fits, and every other currency's cash stays as it was.
proof fn lemma_posting_moves(m: Map<Seq<char>, (int, nat)>, p: (Seq<char>, (int, nat), (int, nat)), c: Seq<char>)
    requires
        exact_decimal_arithmetic(),
        p.1 == (1int, 0nat) || p.1 == (-1int, 0nat),
        representable(p.2),
        representable(held_balance(m, c)),
    ensures
        c != p.0 ==> (apply_posting(m, p) matches Some(m2) ==> held_balance(m2, c) == held_balance(m, c)),
        c == p.0 && fits_at(units(held_balance(m, c)) + p.1.0 * units(p.2), max_scale(held_balance(m, c), p.2))
            ==> (apply_posting(m, p) matches Some(m2) && units(held_balance(m2, c)) == units(
            held_balance(m, c),
        ) + p.1.0 * units(p.2)),
{
    if c == p.0 && fits_at(units(held_balance(m, c)) + p.1.0 * units(p.2), max_scale(held_balance(m, c), p.2)) {
        let before = held_balance(m, c);
        let sum_of = |q: (int, nat)| crate::decimal::decimal_sum(before, q);
        lemma_signed_add(before, p.1, p.2, crate::decimal::decimal_product(p.1, p.2), sum_of);
    }
}

/// Recording a deposit raises the cash of its currency by its amount, and a withdrawal lowers
/// it by its amount; the cash of every other currency stays as it was.
pub proof fn law_cash_movement_moves_cash(events: Seq<PortfolioEvent>, v: CashMovement, c: Seq<char>)
    requires
        exact_decimal_arithmetic(),
        representable(v.amount.amount@),
        cash_totals(events) is Some,
        representable(held_balance(cash_totals(events)->0, c)),
    ensures
        ({
            let before = held_balance(cash_totals(events)->0, c);
            let amount = v.amount.amount@;
            let after = cash_totals(events.push(PortfolioEvent::CashMovement(v)));
            let moved = match v.kind {
                CashMovementKind::Deposit => units(amount),
                CashMovementKind::Withdrawal => -units(amount),
            };
            &&& c != v.amount.currency@ ==> (after matches Some(m) ==> held_balance(m, c) == before)
            &&& c == v.amount.currency@ && fits_at(units(before) + moved, max_scale(before, amount)) ==> (after matches Some(
                m,
            ) && units(held_balance(m, c)) == units(before) + moved)
        }),
{
    let e2 = events.push(PortfolioEvent::CashMovement(v));
    assert(e2.drop_last() =~= events);
    let m = cash_totals(events)->0;
    let sign = match v.kind {
        CashMovementKind::Deposit => (1int, 0nat),
        CashMovementKind::Withdrawal => (-1int, 0nat),
    };
    let p = (v.amount.currency@, sign, v.amount.amount@);
    let ps = event_postings(PortfolioEvent::CashMovement(v))->0;
    assert(e2.last() == PortfolioEvent::CashMovement(v));
    assert(ps =~= seq![p]);
    assert(ps.drop_last() =~= Seq::<(Seq<char>, (int, nat), (int, nat))>::empty());
    assert(apply_postings(m, ps.drop_last()) == Some(m));
    assert(apply_postings(m, ps) == apply_posting(m, p));
    assert(cash_totals(e2) == apply_posting(m, p));
    lemma_posting_moves(m, p, c);
}

/// Recording a trade with one fee, in another currency than its price, lowers the cash of the
/// fee's currency by the fee.
pub proof fn law_trade_fee_takes_cash(events: Seq<PortfolioEvent>, t: Trade)
    requires
        exact_decimal_arithmetic(),
        t.fees@.len() == 1,
        t.fees@[0].currency@ != t.unit_price.currency@,
        representable(t.quantity@),
        representable(t.unit_price.amount@),
        representable(t.fees@[0].amount@),
        cash_totals(events) is Some,
        representable(held_balance(cash_totals(events)->0, t.fees@[0].currency@)),
        spec_gross_amount(t) is Some,
    ensures
        ({
            let fee = t.fees@[0];
            let before = held_balance(cash_totals(events)->0, fee.currency@);
            let after = cash_totals(events.push(PortfolioEvent::Trade(t)));
            fits_at(units(before) - units(fee.amount@), max_scale(before, fee.amount@)) && after is Some
                ==> units(held_balance(after->0, fee.currency@)) == units(before) - units(fee.amount@)
        }),
{
    let e2 = events.push(PortfolioEvent::Trade(t));
    assert(e2.drop_last() =~= events);
    let m = cash_totals(events)->0;
    let gross = spec_gross_amount(t)->0;
    let fee = t.fees@[0];
    let c = fee.currency@;
    let sign = match t.side {
        TradeSide::Buy => (-1int, 0nat),
        TradeSide::Sell => (1int, 0nat),
    };
    let p0 = (t.unit_price.currency@, sign, gross);
    let p1 = (c, (-1int, 0nat), fee.amount@);
    let ps = event_postings(PortfolioEvent::Trade(t))->0;
    assert(ps =~= seq![p0, p1]);
    assert(ps.drop_last() =~= seq![p0]);
    assert(e2.last() == PortfolioEvent::Trade(t));
    assert(ps.drop_last().drop_last() =~= Seq::<(Seq<char>, (int, nat), (int, nat))>::empty());
    assert(apply_postings(m, ps.drop_last().drop_last()) == Some(m));
    assert(ps.drop_last().last() == p0);
    assert(apply_postings(m, ps.drop_last()) == apply_posting(m, p0));
    assert(ps.last() == p1);
    lemma_gross_representable(t);
    lemma_posting_moves(m, p0, c);
    if apply_posting(m, p0) is Some {
        let m1 = apply_posting(m, p0)->0;
        assert(held_balance(m1, c) == held_balance(m, c));
        assert(apply_postings(m, ps) == apply_posting(m1, p1));
        assert(cash_totals(e2) == apply_posting(m1, p1));
        assert(-1int * units(fee.amount@) == -units(fee.amount@));
        lemma_posting_moves(m1, p1, c);
    }
}

/// When a sell reaches a lot of its instrument that still holds a quantity, in its currency,
/// the lot gives up the lesser of what it holds and what remains to be sold, and the gains of
/// the currency grow by that quantity times the unit proceeds less the lot's unit cost (each
/// as rust_decimal gives it exactly); the disposal then goes on with the next lot.
pub proof fn law_matched_lot_adds_its_margin(
    lots: Seq<GainLotValue>,
    j: int,
    remaining: (int, nat),
    instrument: (bool, Seq<char>),
    unit: (int, nat),
    currency: Seq<char>,
    gains: Map<Seq<char>, (int, nat)>,
)
    requires
        exact_decimal_arithmetic(),
        0 <= j < lots.len(),
        lots[j].0 == instrument,
        lots[j].1.0 != 0,
        remaining.0 != 0,
        lots[j].3 == currency,
        representable(unit),
        representable(lots[j].1),
        representable(lots[j].2),
        representable(remaining),
        representable(held_balance(gains, currency)),
    ensures
        ({
            let lot = lots[j];
            let matched = crate::domain::portfolio::lesser(remaining, lot.1);
            let before = held_balance(gains, currency);
            let margin = difference_as_computed(unit, lot.2);
            let added = product_as_computed(matched, margin);
            difference_exact(unit, lot.2) && product_exact(matched, margin) && sum_exact(before, added)
                ==> {
                &&& units(sum_as_computed(before, added)) == units(before) + units(added)
                &&& realize_gains(lots, j, remaining, instrument, unit, currency, gains) == match (
                    crate::decimal::decimal_difference(lot.1, matched),
                    crate::decimal::decimal_difference(remaining, matched),
                ) {
                    (Some(left), Some(rest)) => realize_gains(
                        lots.update(j, (lot.0, left, lot.2, lot.3)),
                        j + 1,
                        rest,
                        instrument,
                        unit,
                        currency,
                        gains.insert(currency, sum_as_computed(before, added)),
                    ),
                    _ => None,
                }
            }
        }),
{
    let lot = lots[j];
    let matched = crate::domain::portfolio::lesser(remaining, lot.1);
    let before = held_balance(gains, currency);
    let margin = difference_as_computed(unit, lot.2);
    let added = product_as_computed(matched, margin);
    if difference_exact(unit, lot.2) && product_exact(matched, margin) && sum_exact(before, added) {
        lemma_as_computed_units(unit, lot.2);
        assert(representable(matched));
        assert(crate::decimal::decimal_difference(unit, lot.2) == Some(margin));
        assert(crate::decimal::decimal_product(matched, margin) == Some(added));
        assert(representable(added)) by {
            assert(crate::decimal::decimal_product(matched, margin) matches Some(r) ==> representable(r));
        }
        lemma_as_computed_units(before, added);
        assert(apply_posting(gains, (currency, matched, margin)) == Some(
            gains.insert(currency, sum_as_computed(before, added)),
        ));
    }
}

/// Recording a currency exchange lowers the cash of the sold currency by the sold amount and
/// raises that of the bought currency by the bought amount.
pub proof fn law_exchange_moves_both_currencies(events: Seq<PortfolioEvent>, v: CurrencyExchange)
    requires
        exact_decimal_arithmetic(),
        v.sold.currency@ != v.bought.currency@,
        representable(v.sold.amount@),
        representable(v.bought.amount@),
        cash_totals(events) is Some,
        representable(held_balance(cash_totals(events)->0, v.sold.currency@)),
        representable(held_balance(cash_totals(events)->0, v.bought.currency@)),
    ensures
        ({
            let m = cash_totals(events)->0;
            let sold = held_balance(m, v.sold.currency@);
            let bought = held_balance(m, v.bought.currency@);
            let after = cash_totals(events.push(PortfolioEvent::CurrencyExchange(v)));
            fits_at(units(sold) - units(v.sold.amount@), max_scale(sold, v.sold.amount@)) && fits_at(
                units(bought) + units(v.bought.amount@),
                max_scale(bought, v.bought.amount@),
            ) ==> (after matches Some(m2) && units(held_balance(m2, v.sold.currency@)) == units(sold)
                - units(v.sold.amount@) && units(held_balance(m2, v.bought.currency@)) == units(bought)
                + units(v.bought.amount@))
        }),
{
    let e2 = events.push(PortfolioEvent::CurrencyExchange(v));
    assert(e2.drop_last() =~= events);
    assert(e2.last() == PortfolioEvent::CurrencyExchange(v));
    let m = cash_totals(events)->0;
    let p0 = (v.sold.currency@, (-1int, 0nat), v.sold.amount@);
    let p1 = (v.bought.currency@, (1int, 0nat), v.bought.amount@);
    let ps = event_postings(PortfolioEvent::CurrencyExchange(v))->0;
    assert(ps =~= seq![p0, p1]);
    assert(ps.drop_last() =~= seq![p0]);
    assert(ps.drop_last().drop_last() =~= Seq::<(Seq<char>, (int, nat), (int, nat))>::empty());
    assert(apply_postings(m, ps.drop_last().drop_last()) == Some(m));
    assert(ps.drop_last().last() == p0);
    assert(apply_postings(m, ps.drop_last()) == apply_posting(m, p0));
    assert(ps.last() == p1);
    let sold = held_balance(m, v.sold.currency@);
    let bought = held_balance(m, v.bought.currency@);
    if fits_at(units(sold) - units(v.sold.amount@), max_scale(sold, v.sold.amount@)) && fits_at(
        units(bought) + units(v.bought.amount@),
        max_scale(bought, v.bought.amount@),
    ) {
        assert(-1int * units(v.sold.amount@) == -units(v.sold.amount@));
        lemma_posting_moves(m, p0, v.sold.currency@);
        lemma_posting_moves(m, p0, v.bought.currency@);
        let m1 = apply_posting(m, p0)->0;
        assert(apply_postings(m, ps) == apply_posting(m1, p1));
        lemma_posting_moves(m1, p1, v.sold.currency@);
        lemma_posting_moves(m1, p1, v.bought.currency@);
    }
}

/// The fees of a trade in euros add up one by one: with one more fee, the total grows by that
/// fee in euros, the sum as rust_decimal gives it exactly; a fee that cannot be had in euros
/// refuses the total for the same reason.
pub proof fn law_tax_fees_add_up(t: Trade, k: int)
    requires
        exact_decimal_arithmetic(),
        0 <= k < t.fees@.len(),
    ensures
        ({
        let total = (tax_fees(t, k)->0)->Ok_0;
        (tax_fees(t, k) matches Some(Ok(_))) && representable(total) ==> match spec_money_for_tax(
            t,
            money_value(t.fees@[k]),
        ) {
            Some(Ok(fee)) => representable(fee.0) && sum_exact(total, fee.0) ==> tax_fees(t, k + 1) == Some(
                Ok::<_, PortfolioError>(sum_as_computed(total, fee.0)),
            ),
            Some(Err(e)) => tax_fees(t, k + 1) == Some(Err::<(int, nat), _>(e)),
            None => tax_fees(t, k + 1) is None,
        }
        }),
{
}

/// The fees of a trade in its price currency add up one by one: with one more fee in that
/// currency, the total grows by that fee, the sum as rust_decimal gives it exactly; a fee in
/// another currency refuses the total.
pub proof fn law_trade_fees_add_up(t: Trade, k: int)
    requires
        exact_decimal_arithmetic(),
        0 <= k < t.fees@.len(),
    ensures
        ({
            let currency = t.unit_price.currency@;
            let fee = t.fees@[k];
            let total = (trade_fees_total(t, currency, k)->0)->Ok_0;
            (trade_fees_total(t, currency, k) matches Some(Ok(_))) && representable(total)
                ==> if fee.currency@ != currency {
                trade_fees_total(t, currency, k + 1) == Some(
                    Err::<(int, nat), _>(PortfolioError::MixedTradeCurrencies),
                )
            } else {
                representable(fee.amount@) && sum_exact(total, fee.amount@) ==> trade_fees_total(
                    t,
                    currency,
                    k + 1,
                ) == Some(Ok::<_, PortfolioError>(sum_as_computed(total, fee.amount@)))
            }
        }),
{
}

/// An amount in euros is kept as it is; an amount in the base currency of the trade's tax rate
/// is converted to the rate's quote currency at the amount times the rate, the product as
/// rust_decimal gives it exactly; without a rate, or at a rate of another base, it is refused.
pub proof fn law_money_for_tax_converts_at_the_rate(t: Trade, m: ((int, nat), Seq<char>))
    requires
        exact_decimal_arithmetic(),
        representable(m.0),
    ensures
        m.1 == "EUR"@ ==> spec_money_for_tax(t, m) == Some(Ok::<_, PortfolioError>(m)),
        m.1 != "EUR"@ ==> match t.tax_rate_to_eur {
            None => spec_money_for_tax(t, m) == Some(Err::<((int, nat), Seq<char>), _>(
                PortfolioError::MissingTaxExchangeRate,
            )),
            Some(rate) => if m.1 != rate.base@ {
                spec_money_for_tax(t, m) == Some(Err::<((int, nat), Seq<char>), _>(
                    PortfolioError::ExchangeRateCurrencyMismatch,
                ))
            } else {
                representable(rate.rate@) && product_exact(m.0, rate.rate@) ==> spec_money_for_tax(t, m)
                    == Some(Ok::<_, PortfolioError>((product_as_computed(m.0, rate.rate@), rate.quote@)))
            },
        },
{
}

/// The gross amount of a trade is its quantity times the contract multiplier (100 for an
/// option, 1 otherwise) times its unit price, each product as rust_decimal gives it exactly.
pub proof fn law_gross_amount_is_quantity_times_multiplier_times_price(t: Trade)
    requires
        exact_decimal_arithmetic(),
        representable(t.quantity@),
        representable(t.unit_price.amount@),
    ensures
        ({
            let multiplier = if t.instrument@.0 {
                (100int, 0nat)
            } else {
                (1int, 0nat)
            };
            let units_held = product_as_computed(t.quantity@, multiplier);
            product_exact(t.quantity@, multiplier) && product_exact(units_held, t.unit_price.amount@)
                ==> spec_gross_amount(t) == Some(product_as_computed(units_held, t.unit_price.amount@))
        }),
{
    let multiplier = if t.instrument@.0 {
        (100int, 0nat)
    } else {
        (1int, 0nat)
    };
    assert(representable(multiplier));
    let units_held = product_as_computed(t.quantity@, multiplier);
    if product_exact(t.quantity@, multiplier) {
        assert(crate::decimal::decimal_product(t.quantity@, multiplier) == Some(units_held));
        assert(representable(units_held)) by {
            assert(crate::decimal::decimal_product(t.quantity@, multiplier) matches Some(r) ==> representable(r));
        }
    }
}

} // verus!
