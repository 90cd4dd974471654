//! Strategy simulation use cases.

use vstd::prelude::*;

use crate::domain::simulation::{SimulationError, SimulationTradeSide};
use crate::port::PortError;
use crate::text::{is_ascii_digit, same_text, texts};
use crate::time::{
    distinct_days, is_calendar_day, strictly_ascending_days, two_digits, CalendarDate, MAX_DAYS_FROM_CE,
};

verus! {

/// Prepares and simulates option strategies.
#[derive(Debug, Default, Clone, Copy)]
pub struct SimulationApplication;

/// A simulation the model refused, reported as an invalid request.
pub fn invalid_simulation(error: &SimulationError) -> (r: PortError)
    ensures
        r matches PortError::InvalidRequest(m) && m@ == error.message_text(),
{
    PortError::InvalidRequest(error.message())
}

/// The day `n` days after `d`.
pub open spec fn days_after(d: CalendarDate, n: int) -> CalendarDate {
    CalendarDate { days_from_ce: (d.days_from_ce + n) as i32 }
}

/// The earlier of two days.
pub open spec fn earlier_day(a: CalendarDate, b: CalendarDate) -> CalendarDate {
    if a.days_from_ce <= b.days_from_ce {
        a
    } else {
        b
    }
}

/// The days simulated when none are asked for: the valuation day, a week and two
/// weeks later (never past expiration), and the expiration.
pub open spec fn default_scenario_days(valuation: CalendarDate, expiration: CalendarDate) -> Seq<
    CalendarDate,
> {
    seq![
        valuation,
        earlier_day(days_after(valuation, 7), expiration),
        earlier_day(days_after(valuation, 14), expiration),
        expiration,
    ]
}

/// The days a scenario run looks at: those asked for, or the defaults when the
/// request names none.
pub open spec fn chosen_scenario_days(
    valuation: CalendarDate,
    expiration: CalendarDate,
    requested: Option<Seq<CalendarDate>>,
) -> Seq<CalendarDate> {
    match requested {
        Some(days) => if days.len() > 0 {
            days
        } else {
            default_scenario_days(valuation, expiration)
        },
        None => default_scenario_days(valuation, expiration),
    }
}

/// The day lies within the strategy's life, from valuation to expiration.
pub open spec fn within_strategy(d: CalendarDate, valuation: CalendarDate, expiration: CalendarDate) -> bool {
    valuation.days_from_ce <= d.days_from_ce <= expiration.days_from_ce
}

pub open spec fn slice_days(requested: Option<&[CalendarDate]>) -> Option<Seq<CalendarDate>> {
    match requested {
        Some(days) => Some(days@),
        None => None,
    }
}

/// The days to simulate: those asked for, or the defaults when none are, each
/// once and in calendar order. A day before valuation or after expiration is
/// refused.
pub fn scenario_dates(
    valuation_date: CalendarDate,
    expiration: CalendarDate,
    requested: Option<&[CalendarDate]>,
) -> (r: Result<Vec<CalendarDate>, PortError>)
    requires
        valuation_date.days_from_ce + 14 <= MAX_DAYS_FROM_CE,
    ensures
        ({
            let chosen = chosen_scenario_days(valuation_date, expiration, slice_days(requested));
            match r {
                Ok(days) => {
                    &&& forall|k: int| 0 <= k < chosen.len() ==> within_strategy(#[trigger] chosen[k], valuation_date, expiration)
                    &&& strictly_ascending_days(days@)
                    &&& days@.to_set() == chosen.to_set()
                },
                Err(e) => {
                    &&& exists|k: int| 0 <= k < chosen.len() && !within_strategy(#[trigger] chosen[k], valuation_date, expiration)
                    &&& e matches PortError::InvalidRequest(m) && m@ == "data de simulação fora do intervalo da estratégia"@
                },
            }
        }),
{
    let week = CalendarDate { days_from_ce: valuation_date.days_from_ce + 7 };
    let fortnight = CalendarDate { days_from_ce: valuation_date.days_from_ce + 14 };
    let week = if week.days_from_ce <= expiration.days_from_ce { week } else { expiration };
    let fortnight = if fortnight.days_from_ce <= expiration.days_from_ce { fortnight } else { expiration };
    let defaults: Vec<CalendarDate> = vec![valuation_date, week, fortnight, expiration];
    proof {
        assert(defaults@ =~= default_scenario_days(valuation_date, expiration));
    }
    let dates: &[CalendarDate] = match requested {
        Some(days) if days.len() > 0 => days,
        _ => defaults.as_slice(),
    };
    let ghost chosen = chosen_scenario_days(valuation_date, expiration, slice_days(requested));
    assert(dates@ == chosen);
    let mut i: usize = 0;
    while i < dates.len()
        invariant
            i <= dates@.len(),
            dates@ == chosen,
            chosen == chosen_scenario_days(valuation_date, expiration, slice_days(requested)),
            forall|k: int| 0 <= k < i ==> within_strategy(#[trigger] chosen[k], valuation_date, expiration),
        decreases dates.len() - i,
    {
        let d = dates[i];
        if d.days_from_ce < valuation_date.days_from_ce || d.days_from_ce > expiration.days_from_ce {
            assert(!within_strategy(chosen[i as int], valuation_date, expiration));
            return Err(PortError::InvalidRequest("data de simulação fora do intervalo da estratégia".to_owned()));
        }
        i = i + 1;
    }
    Ok(distinct_days(dates))
}

/// How far an expiration lies from thirty days after the valuation day, in days.
pub open spec fn distance_from_a_month(valuation: CalendarDate, expiration: CalendarDate) -> int {
    let d = expiration.days_from_ce - valuation.days_from_ce - 30;
    if d < 0 {
        -d
    } else {
        d
    }
}

/// The expiration lies after the valuation day.
pub open spec fn is_future_expiration(valuation: CalendarDate, expiration: CalendarDate) -> bool {
    expiration.days_from_ce > valuation.days_from_ce
}

/// `expirations[i]` is the future expiration nearest to thirty days out, the first
/// such one where several are equally near.
pub open spec fn is_default_expiration(valuation: CalendarDate, expirations: Seq<CalendarDate>, i: int) -> bool {
    &&& 0 <= i < expirations.len()
    &&& is_future_expiration(valuation, expirations[i])
    &&& forall|j: int|
        0 <= j < expirations.len() && is_future_expiration(valuation, #[trigger] expirations[j]) ==> distance_from_a_month(
            valuation,
            expirations[i],
        ) <= distance_from_a_month(valuation, expirations[j])
    &&& forall|j: int|
        0 <= j < i && is_future_expiration(valuation, #[trigger] expirations[j]) ==> distance_from_a_month(
            valuation,
            expirations[i],
        ) < distance_from_a_month(valuation, expirations[j])
}

/// The expiration a strategy uses when its legs name none: among the chain's
/// expirations after the valuation day, the one nearest to thirty days out (the
/// first of equally near ones). Without a future expiration there is none.
pub fn default_expiration(valuation_date: CalendarDate, expirations: &[CalendarDate]) -> (r: Result<CalendarDate, PortError>)
    ensures
        match r {
            Ok(d) => exists|i: int| is_default_expiration(valuation_date, expirations@, i) && expirations@[i] == d,
            Err(e) => {
                &&& forall|j: int| 0 <= j < expirations@.len() ==> !is_future_expiration(valuation_date, #[trigger] expirations@[j])
                &&& e matches PortError::NotFound(m) && m@ == "expiração do ativo indisponível"@
            },
        },
{
    let mut best: Option<usize> = None;
    let mut best_distance: i64 = 0;
    let mut k: usize = 0;
    while k < expirations.len()
        invariant
            k <= expirations@.len(),
            match best {
                Some(i) => {
                    &&& i < k
                    &&& is_future_expiration(valuation_date, expirations@[i as int])
                    &&& best_distance == distance_from_a_month(valuation_date, expirations@[i as int])
                    &&& forall|j: int|
                        0 <= j < k && is_future_expiration(valuation_date, #[trigger] expirations@[j]) ==> best_distance
                            <= distance_from_a_month(valuation_date, expirations@[j])
                    &&& forall|j: int|
                        0 <= j < i && is_future_expiration(valuation_date, #[trigger] expirations@[j]) ==> best_distance
                            < distance_from_a_month(valuation_date, expirations@[j])
                },
                None => forall|j: int| 0 <= j < k ==> !is_future_expiration(valuation_date, #[trigger] expirations@[j]),
            },
        decreases expirations.len() - k,
    {
        let e = expirations[k];
        if e.days_from_ce > valuation_date.days_from_ce {
            let offset: i64 = e.days_from_ce as i64 - valuation_date.days_from_ce as i64 - 30;
            let distance: i64 = if offset < 0 { -offset } else { offset };
            let better = match best {
                Some(_) => distance < best_distance,
                None => true,
            };
            if better {
                best = Some(k);
                best_distance = distance;
            }
        }
        k = k + 1;
    }
    match best {
        Some(i) => Ok(expirations[i]),
        None => Err(PortError::NotFound("expiração do ativo indisponível".to_owned())),
    }
}

/// The expiration a strategy is simulated to: the earliest expiration among its
/// chosen legs, or the default one when it has none.
pub fn strategy_expiration(default: CalendarDate, leg_expirations: &[CalendarDate]) -> (r: CalendarDate)
    ensures
        leg_expirations@.len() == 0 ==> r == default,
        leg_expirations@.len() > 0 ==> {
            &&& leg_expirations@.contains(r)
            &&& forall|j: int| 0 <= j < leg_expirations@.len() ==> r.days_from_ce <= (#[trigger] leg_expirations@[j]).days_from_ce
        },
{
    if leg_expirations.len() == 0 {
        return default;
    }
    let mut earliest = leg_expirations[0];
    let mut k: usize = 1;
    while k < leg_expirations.len()
        invariant
            1 <= k <= leg_expirations@.len(),
            leg_expirations@.contains(earliest),
            forall|j: int| 0 <= j < k ==> earliest.days_from_ce <= (#[trigger] leg_expirations@[j]).days_from_ce,
        decreases leg_expirations.len() - k,
    {
        if leg_expirations[k].days_from_ce < earliest.days_from_ce {
            earliest = leg_expirations[k];
        }
        k = k + 1;
    }
    earliest
}

/// A leg the user asked for: the contract by its OCC symbol, how many, and whether
/// the entry price given for it is a usable price (finite and not negative).
#[derive(Debug, Clone, PartialEq, Eq)]
pub struct LegRequest {
    pub occ_symbol: String,
    pub quantity: u32,
    pub entry_price_usable: bool,
}

/// The position of the first contract of the chain with the symbol, if any.
pub open spec fn first_contract_with(symbols: Seq<Seq<char>>, symbol: Seq<char>) -> Option<int>
    decreases symbols.len(),
{
    if symbols.len() == 0 {
        None
    } else {
        match first_contract_with(symbols.drop_last(), symbol) {
            Some(i) => Some(i),
            None => if symbols.last() == symbol {
                Some(symbols.len() - 1)
            } else {
                None
            },
        }
    }
}

/// The leg asks for a positive quantity at a usable price.
pub open spec fn leg_is_valid(leg: LegRequest) -> bool {
    leg.quantity != 0 && leg.entry_price_usable
}

/// The leg is valid and names a contract of the chain.
pub open spec fn leg_is_found(symbols: Seq<Seq<char>>, leg: LegRequest) -> bool {
    leg_is_valid(leg) && first_contract_with(symbols, leg.occ_symbol@) is Some
}

fn find_contract(symbols: &[String], symbol: &str) -> (r: Option<usize>)
    ensures
        match (r, first_contract_with(texts(symbols@), symbol@)) {
            (Some(i), Some(j)) => i == j,
            (None, None) => true,
            _ => false,
        },
{
    let ghost all = texts(symbols@);
    let mut i: usize = 0;
    while i < symbols.len()
        invariant
            i <= symbols@.len(),
            all == texts(symbols@),
            first_contract_with(all.subrange(0, i as int), symbol@) is None,
        decreases symbols.len() - i,
    {
        proof {
            assert(all.subrange(0, i + 1).drop_last() =~= all.subrange(0, i as int));
            assert(all[i as int] == symbols@[i as int]@);
        }
        if same_text(symbols[i].as_str(), symbol) {
            proof {
                lemma_first_contract_with_prefix(all, i as int + 1, symbol@);
            }
            return Some(i);
        }
        i = i + 1;
    }
    proof {
        assert(all.subrange(0, all.len() as int) =~= all);
    }
    None
}

proof fn lemma_first_contract_with_prefix(symbols: Seq<Seq<char>>, n: int, symbol: Seq<char>)
    requires
        0 <= n <= symbols.len(),
        first_contract_with(symbols.subrange(0, n), symbol) is Some,
    ensures
        first_contract_with(symbols, symbol) == first_contract_with(symbols.subrange(0, n), symbol),
    decreases symbols.len() - n,
{
    if n < symbols.len() {
        assert(symbols.subrange(0, n + 1).drop_last() =~= symbols.subrange(0, n));
        lemma_first_contract_with_prefix(symbols, n + 1, symbol);
    } else {
        assert(symbols.subrange(0, n) =~= symbols);
    }
}

/// The chain positions of the contracts the legs name, leg by leg. The first leg
/// with a zero quantity or an unusable price is refused as invalid; the first
/// valid leg whose symbol the chain lacks is refused as unknown.
pub fn matched_legs(legs: &[LegRequest], contract_symbols: &[String]) -> (r: Result<Vec<usize>, PortError>)
    ensures
        ({
            let symbols = texts(contract_symbols@);
            match r {
                Ok(positions) => {
                    &&& positions@.len() == legs@.len()
                    &&& forall|k: int| 0 <= k < legs@.len() ==> leg_is_valid(#[trigger] legs@[k])
                        && first_contract_with(symbols, legs@[k].occ_symbol@) == Some(positions@[k] as int)
                },
                Err(e) => exists|k: int| {
                    &&& 0 <= k < legs@.len()
                    &&& forall|j: int| 0 <= j < k ==> leg_is_found(symbols, #[trigger] legs@[j])
                    &&& if !leg_is_valid(#[trigger] legs@[k]) {
                        e matches PortError::InvalidRequest(m) && m@ == "perna da estratégia inválida"@
                    } else {
                        &&& first_contract_with(symbols, legs@[k].occ_symbol@) is None
                        &&& e matches PortError::InvalidRequest(m) && m@ == "contrato não existe no snapshot"@
                    }
                },
            }
        }),
{
    let ghost symbols = texts(contract_symbols@);
    let mut positions: Vec<usize> = Vec::new();
    let mut k: usize = 0;
    while k < legs.len()
        invariant
            k <= legs@.len(),
            symbols == texts(contract_symbols@),
            positions@.len() == k,
            forall|j: int| 0 <= j < k ==> leg_is_valid(#[trigger] legs@[j])
                && first_contract_with(symbols, legs@[j].occ_symbol@) == Some(positions@[j] as int),
        decreases legs.len() - k,
    {
        let leg = &legs[k];
        if leg.quantity == 0 || !leg.entry_price_usable {
            proof {
                assert forall|j: int| 0 <= j < k implies leg_is_found(symbols, #[trigger] legs@[j]) by {}
                assert(!leg_is_valid(legs@[k as int]));
            }
            return Err(PortError::InvalidRequest("perna da estratégia inválida".to_owned()));
        }
        match find_contract(contract_symbols, leg.occ_symbol.as_str()) {
            Some(i) => {
                positions.push(i);
            },
            None => {
                proof {
                    assert forall|j: int| 0 <= j < k implies leg_is_found(symbols, #[trigger] legs@[j]) by {}
                    assert(leg_is_valid(legs@[k as int]));
                }
                return Err(PortError::InvalidRequest("contrato não existe no snapshot".to_owned()));
            },
        }
        k = k + 1;
    }
    Ok(positions)
}

/// The day and month of a calendar day as chrono writes them with `%d/%m`.
pub uninterp spec fn day_month_text(days_from_ce: i32) -> Seq<char>;

/// Calls chrono's `NaiveDate::from_num_days_from_ce_opt` and writes the day with
/// the pattern `%d/%m`. The contract names the text and states it: two digits of
/// day (`%d` pads with zero), a slash, two digits of month, of the day and month
/// of the proleptic Gregorian calendar that the day is.
#[verifier::external_body]
fn day_month_label(d: CalendarDate) -> (r: String)
    requires
        d.is_valid(),
    ensures
        r@ == day_month_text(d.days_from_ce),
        r@.len() == 5,
        r@[2] == '/',
        is_ascii_digit(r@[0]) && is_ascii_digit(r@[1]) && is_ascii_digit(r@[3]) && is_ascii_digit(r@[4]),
        exists|y: int|
            is_calendar_day(d.days_from_ce as int, y, two_digits(r@[3], r@[4]), two_digits(r@[0], r@[1])),
{
    chrono::NaiveDate::from_num_days_from_ce_opt(d.days_from_ce).unwrap().format("%d/%m").to_string()
}

/// The caption of a scenario curve: the expiration curve (the first expiration
/// when legs expire on several days), the valuation-day curve, or the curve's
/// day and month.
pub open spec fn spec_curve_label(
    date: CalendarDate,
    expiration: CalendarDate,
    valuation: CalendarDate,
    single_expiration: bool,
) -> Seq<char> {
    if date == expiration {
        if single_expiration {
            "Vencimento"@
        } else {
            "1.º vencimento"@
        }
    } else if date == valuation {
        "Data inicial"@
    } else {
        day_month_text(date.days_from_ce)
    }
}

pub fn curve_label(
    date: CalendarDate,
    expiration: CalendarDate,
    valuation: CalendarDate,
    single_expiration: bool,
) -> (r: String)
    requires
        date.is_valid(),
    ensures
        r@ == spec_curve_label(date, expiration, valuation, single_expiration),
{
    if date == expiration {
        if single_expiration {
            "Vencimento".to_owned()
        } else {
            "1.º vencimento".to_owned()
        }
    } else if date == valuation {
        "Data inicial".to_owned()
    } else {
        day_month_label(date)
    }
}

/// How a scenario's prices are modeled: index options on SPX are European; for
/// other underlyings the European model stands in until early exercise is modeled.
pub fn pricing_model_note(ticker: &str) -> (r: &'static str)
    ensures
        r@ == if ticker@ == "SPX"@ {
            "Black–Scholes · opção europeia"@
        } else {
            "Black–Scholes provisório · exercício americano ainda não modelado"@
        },
{
    if same_text(ticker, "SPX") {
        "Black–Scholes · opção europeia"
    } else {
        "Black–Scholes provisório · exercício americano ainda não modelado"
    }
}

/// The side and size of a strategy leg from its signed quantity: a positive
/// quantity buys, any other sells.
pub fn simulation_leg_side(quantity: i32) -> (r: (SimulationTradeSide, u32))
    ensures
        r.0 == if quantity > 0 {
            SimulationTradeSide::Buy
        } else {
            SimulationTradeSide::Sell
        },
        r.1 == if quantity < 0 {
            -quantity
        } else {
            quantity as int
        },
{
    let side = if quantity > 0 {
        SimulationTradeSide::Buy
    } else {
        SimulationTradeSide::Sell
    };
    let size: u32 = if quantity < 0 {
        (-(quantity as i64)) as u32
    } else {
        quantity as u32
    };
    (side, size)
}

} // verus!
