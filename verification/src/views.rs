//! The portfolio movements as the legacy HTTP contract lists them.

use vstd::prelude::*;
use vstd::string::*;

use crate::decimal::{
    checked_add, checked_div, checked_mul, decimal_display, decimal_sum, decimal_normalize, decimal_product, decimal_quotient,
    decimal_round_dp, decimal_text, normalize, round_dp, Decimal,
};
use crate::domain::portfolio::{
    event_id, lists_code_map, codes_sorted, position_totals, spec_cash_value, spec_dividend_net,
    spec_fifo_tax_projection, spec_gross_amount, spec_gross_amount_for_tax, spec_realized_gains, CashMovementKind,
    Instrument, Portfolio, PortfolioError, PortfolioEvent, RealizedLot, RealizedValue, TradeSide, realized_values,
};
use crate::domain::tracked_ticker::TrackedTicker;
use crate::text::{append, concat, joined, same_text};
use crate::time::{CalendarDate, UtcInstant};

verus! {

/// The symbol an instrument is listed under.
pub fn instrument_label(instrument: &Instrument) -> (r: String)
    ensures
        r@ == instrument@.1,
{
    match instrument {
        Instrument::Equity { ticker } => ticker.clone(),
        Instrument::Option { occ_symbol } => occ_symbol.clone(),
    }
}

/// One movement of a portfolio, as listed.
#[derive(Debug, Clone, PartialEq, Eq)]
pub struct MovementView {
    pub id: String,
    pub occurred_at: UtcInstant,
    pub kind: String,
    pub description: String,
    pub amount: String,
    pub currency: String,
    pub counter_amount: Option<String>,
    pub counter_currency: Option<String>,
    pub tax_amount_eur: Option<String>,
    pub tax_rate: Option<String>,
    pub tax_rate_date: Option<CalendarDate>,
    pub tax_rate_source: Option<String>,
    pub exchange_rate_label: Option<String>,
}

pub open spec fn opt_text(o: Option<String>) -> Option<Seq<char>> {
    match o {
        Some(s) => Some(s@),
        None => None,
    }
}

/// The inverse of a rate, rounded to six places and without trailing zeros, as written; none
/// where the division fails.
pub open spec fn inverse_rate_text(rate: (int, nat)) -> Option<Seq<char>> {
    match decimal_quotient((1int, 0nat), rate) {
        None => None,
        Some(q) => Some(decimal_display(decimal_normalize(decimal_round_dp(q, 6)))),
    }
}

fn inverse_rate(rate: &Decimal) -> (r: Option<String>)
    ensures
        opt_text(r) == inverse_rate_text(rate@),
{
    match checked_div(&Decimal::one(), rate) {
        None => None,
        Some(q) => Some(decimal_text(&normalize(&round_dp(&q, 6)))),
    }
}

/// The sign of a movement's amount: a buy or a withdrawal takes cash.
pub open spec fn trade_sign(side: TradeSide) -> (int, nat) {
    match side {
        TradeSide::Buy => (-1int, 0nat),
        TradeSide::Sell => (1int, 0nat),
    }
}

pub open spec fn cash_sign(kind: CashMovementKind) -> (int, nat) {
    match kind {
        CashMovementKind::Deposit => (1int, 0nat),
        CashMovementKind::Withdrawal => (-1int, 0nat),
    }
}

/// An amount with a sign, as written.
pub open spec fn signed_text(sign: (int, nat), amount: (int, nat)) -> Seq<char> {
    decimal_display(decimal_product(sign, amount)->0)
}

/// Whether a movement can be listed: `None` where `rust_decimal` overflows or divides by zero;
/// the refusal of the event, if any.
pub open spec fn movement_outcome(e: PortfolioEvent) -> Option<Option<PortfolioError>> {
    match e {
        PortfolioEvent::CashMovement(_) => Some(None),
        PortfolioEvent::Trade(t) => match spec_gross_amount_for_tax(t) {
            None => None,
            Some(Err(err)) => Some(Some(err)),
            Some(Ok(_)) => match t.tax_rate_to_eur {
                Some(rate) => if inverse_rate_text(rate.rate@) is None {
                    None
                } else {
                    Some(None)
                },
                None => Some(None),
            },
        },
        PortfolioEvent::CurrencyExchange(x) => if inverse_rate_text(x.rate.rate@) is None {
            None
        } else {
            Some(None)
        },
        PortfolioEvent::Dividend(d) => if spec_dividend_net(d) is None {
            Some(Some(PortfolioError::InvalidWithholdingTax))
        } else {
            Some(None)
        },
    }
}

/// The listing of a movement: a cash movement as cash with its signed amount; a trade as a
/// buy or sell of its instrument with its signed gross amount and its signed amount in euros
/// for tax, its rate and the rate's inverse; an exchange with what was bought and sold and the
/// inverse of its rate; a dividend with its net amount.
pub open spec fn movement_listed(e: PortfolioEvent, v: MovementView) -> bool {
    &&& v.id@ == event_id(e)
    &&& match e {
        PortfolioEvent::CashMovement(m) => {
            &&& v.occurred_at == m.occurred_at
            &&& v.kind@ == "Caixa"@
            &&& v.description@ == match m.kind {
                CashMovementKind::Deposit => "Depósito"@,
                CashMovementKind::Withdrawal => "Levantamento"@,
            }
            &&& v.amount@ == signed_text(cash_sign(m.kind), m.amount.amount@)
            &&& v.currency@ == m.amount.currency@
            &&& v.counter_amount is None
            &&& v.counter_currency is None
            &&& v.tax_amount_eur is None
            &&& v.tax_rate is None
            &&& v.tax_rate_date is None
            &&& v.tax_rate_source is None
            &&& v.exchange_rate_label is None
        },
        PortfolioEvent::Trade(t) => {
            &&& v.occurred_at == t.executed_at
            &&& v.kind@ == "Transação"@
            &&& v.description@ == match t.side {
                TradeSide::Buy => "Compra"@,
                TradeSide::Sell => "Venda"@,
            } + " "@ + t.instrument@.1
            &&& v.amount@ == signed_text(trade_sign(t.side), spec_gross_amount(t)->0)
            &&& v.currency@ == t.unit_price.currency@
            &&& v.counter_amount is None
            &&& v.counter_currency is None
            &&& opt_text(v.tax_amount_eur) == Some(
                signed_text(trade_sign(t.side), (spec_gross_amount_for_tax(t)->0->Ok_0).0),
            )
            &&& opt_text(v.tax_rate) == match t.tax_rate_to_eur {
                Some(rate) => Some(decimal_display(rate.rate@)),
                None => None,
            }
            &&& v.tax_rate_date == match t.tax_rate_to_eur {
                Some(rate) => Some(rate.reference_date),
                None => None,
            }
            &&& opt_text(v.tax_rate_source) == match t.tax_rate_to_eur {
                Some(rate) => Some(rate.source@),
                None => None,
            }
            &&& opt_text(v.exchange_rate_label) == match t.tax_rate_to_eur {
                Some(rate) => Some(
                    "1 EUR → "@ + inverse_rate_text(rate.rate@)->0 + " "@ + rate.base@ + " · "@
                        + rate.source@,
                ),
                None => None,
            }
        },
        PortfolioEvent::CurrencyExchange(x) => {
            &&& v.occurred_at == x.occurred_at
            &&& v.kind@ == "Câmbio"@
            &&& v.description@ == decimal_display(x.sold.amount@) + " "@ + x.sold.currency@ + " → "@
                + decimal_display(x.bought.amount@) + " "@ + x.bought.currency@
            &&& v.amount@ == decimal_display(x.bought.amount@)
            &&& v.currency@ == x.bought.currency@
            &&& opt_text(v.counter_amount) == Some(decimal_display(x.sold.amount@))
            &&& opt_text(v.counter_currency) == Some(x.sold.currency@)
            &&& v.tax_amount_eur is None
            &&& v.tax_rate is None
            &&& v.tax_rate_date is None
            &&& v.tax_rate_source is None
            &&& opt_text(v.exchange_rate_label) == Some(
                "1 "@ + x.sold.currency@ + " → "@ + inverse_rate_text(x.rate.rate@)->0 + " "@
                    + x.bought.currency@ + " · "@ + x.rate.source@,
            )
        },
        PortfolioEvent::Dividend(d) => {
            &&& v.occurred_at == d.paid_at
            &&& v.kind@ == "Rendimento"@
            &&& v.description@ == "Dividendo "@ + d.instrument@.1
            &&& v.amount@ == decimal_display(spec_dividend_net(d)->0)
            &&& v.currency@ == d.gross.currency@
            &&& v.counter_amount is None
            &&& v.counter_currency is None
            &&& v.tax_amount_eur is None
            &&& v.tax_rate is None
            &&& v.tax_rate_date is None
            &&& v.tax_rate_source is None
            &&& v.exchange_rate_label is None
        },
    }
}

/// The listing of a movement; `None` where `rust_decimal` overflows or divides by zero.
pub fn checked_movement(event: &PortfolioEvent) -> (r: Option<Result<MovementView, PortfolioError>>)
    ensures
        match (r, movement_outcome(*event)) {
            (None, None) => true,
            (Some(Err(e)), Some(Some(f))) => e == f,
            (Some(Ok(v)), Some(None)) => movement_listed(*event, v),
            _ => false,
        },
{
    let id = event.id().to_owned();
    let occurred_at = event.occurred_at();
    match event {
        PortfolioEvent::CashMovement(m) => {
            let sign = match m.kind {
                CashMovementKind::Deposit => Decimal::one(),
                CashMovementKind::Withdrawal => Decimal::minus_one(),
            };
            proof {
                use_type_invariant(&m.amount.amount);
            }
            let signed = match checked_mul(&sign, &m.amount.amount) {
                None => return None,
                Some(v) => v,
            };
            let description = match m.kind {
                CashMovementKind::Deposit => String::from_str("Depósito"),
                CashMovementKind::Withdrawal => String::from_str("Levantamento"),
            };
            Some(
                Ok(
                    MovementView {
                        id,
                        occurred_at,
                        kind: String::from_str("Caixa"),
                        description,
                        amount: decimal_text(&signed),
                        currency: m.amount.currency.code().to_owned(),
                        counter_amount: None,
                        counter_currency: None,
                        tax_amount_eur: None,
                        tax_rate: None,
                        tax_rate_date: None,
                        tax_rate_source: None,
                        exchange_rate_label: None,
                    },
                ),
            )
        },
        PortfolioEvent::Trade(t) => {
            let tax = match t.checked_gross_amount_for_tax_in_eur() {
                None => return None,
                Some(Err(e)) => return Some(Err(e)),
                Some(Ok(m)) => m,
            };
            let gross = match t.checked_gross_amount() {
                None => return None,
                Some(g) => g,
            };
            let sign = match t.side {
                TradeSide::Buy => Decimal::minus_one(),
                TradeSide::Sell => Decimal::one(),
            };
            proof {
                use_type_invariant(&gross.amount);
                use_type_invariant(&tax.amount);
            }
            let signed_gross = match checked_mul(&sign, &gross.amount) {
                None => return None,
                Some(v) => v,
            };
            let signed_tax = match checked_mul(&sign, &tax.amount) {
                None => return None,
                Some(v) => v,
            };
            let side = match t.side {
                TradeSide::Buy => "Compra",
                TradeSide::Sell => "Venda",
            };
            let description = joined(side, " ", instrument_label(&t.instrument).as_str());
            let (tax_rate, tax_rate_date, tax_rate_source, exchange_rate_label) = match &t.tax_rate_to_eur {
                Some(rate) => {
                    let inverse = match inverse_rate(&rate.rate) {
                        None => return None,
                        Some(s) => s,
                    };
                    let mut label = joined("1 EUR → ", inverse.as_str(), " ");
                    append(&mut label, rate.base.code());
                    append(&mut label, " · ");
                    append(&mut label, rate.source.as_str());
                    (Some(decimal_text(&rate.rate)), Some(rate.reference_date), Some(rate.source.clone()), Some(label))
                },
                None => (None, None, None, None),
            };
            Some(
                Ok(
                    MovementView {
                        id,
                        occurred_at,
                        kind: String::from_str("Transação"),
                        description,
                        amount: decimal_text(&signed_gross),
                        currency: t.unit_price.currency.code().to_owned(),
                        counter_amount: None,
                        counter_currency: None,
                        tax_amount_eur: Some(decimal_text(&signed_tax)),
                        tax_rate,
                        tax_rate_date,
                        tax_rate_source,
                        exchange_rate_label,
                    },
                ),
            )
        },
        PortfolioEvent::CurrencyExchange(x) => {
            let inverse = match inverse_rate(&x.rate.rate) {
                None => return None,
                Some(s) => s,
            };
            let sold = decimal_text(&x.sold.amount);
            let bought = decimal_text(&x.bought.amount);
            let mut description = joined(sold.as_str(), " ", x.sold.currency.code());
            append(&mut description, " → ");
            append(&mut description, bought.as_str());
            append(&mut description, " ");
            append(&mut description, x.bought.currency.code());
            let mut label = joined("1 ", x.sold.currency.code(), " → ");
            append(&mut label, inverse.as_str());
            append(&mut label, " ");
            append(&mut label, x.bought.currency.code());
            append(&mut label, " · ");
            append(&mut label, x.rate.source.as_str());
            Some(
                Ok(
                    MovementView {
                        id,
                        occurred_at,
                        kind: String::from_str("Câmbio"),
                        description,
                        amount: decimal_text(&x.bought.amount),
                        currency: x.bought.currency.code().to_owned(),
                        counter_amount: Some(sold),
                        counter_currency: Some(x.sold.currency.code().to_owned()),
                        tax_amount_eur: None,
                        tax_rate: None,
                        tax_rate_date: None,
                        tax_rate_source: None,
                        exchange_rate_label: Some(label),
                    },
                ),
            )
        },
        PortfolioEvent::Dividend(d) => {
            let net = match d.net() {
                Err(e) => return Some(Err(e)),
                Ok(n) => n,
            };
            Some(
                Ok(
                    MovementView {
                        id,
                        occurred_at,
                        kind: String::from_str("Rendimento"),
                        description: concat("Dividendo ", instrument_label(&d.instrument).as_str()),
                        amount: decimal_text(&net.amount),
                        currency: net.currency.code().to_owned(),
                        counter_amount: None,
                        counter_currency: None,
                        tax_amount_eur: None,
                        tax_rate: None,
                        tax_rate_date: None,
                        tax_rate_source: None,
                        exchange_rate_label: None,
                    },
                ),
            )
        },
    }
}

/// The listing of a movement.
pub fn movement(event: &PortfolioEvent) -> (r: Result<MovementView, PortfolioError>)
    requires
        movement_outcome(*event) is Some,
    ensures
        match (r, movement_outcome(*event)->0) {
            (Err(e), Some(f)) => e == f,
            (Ok(v), None) => movement_listed(*event, v),
            _ => false,
        },
{
    checked_movement(event).unwrap()
}

/// The kind of asset a followed ticker is shown as.
#[derive(Debug, Clone, Copy, PartialEq, Eq, Structural)]
pub enum AssetKind {
    Equity,
    Index,
    Etf,
}

/// A followed ticker as the asset list shows it.
#[derive(Debug, Clone, PartialEq, Eq)]
pub struct AssetSummary {
    pub ticker: String,
    pub name: String,
    pub kind: AssetKind,
}

/// The name and kind a ticker is shown with: a few known assets by name, any other ticker as
/// an equity named by its ticker.
pub open spec fn asset_identity(ticker: Seq<char>) -> (Seq<char>, AssetKind) {
    if ticker == "AAPL"@ {
        ("Apple Inc."@, AssetKind::Equity)
    } else if ticker == "GOOGL"@ {
        ("Alphabet Inc."@, AssetKind::Equity)
    } else if ticker == "IBM"@ {
        ("IBM"@, AssetKind::Equity)
    } else if ticker == "JPM"@ {
        ("JPMorgan Chase & Co."@, AssetKind::Equity)
    } else if ticker == "MSFT"@ {
        ("Microsoft Corp."@, AssetKind::Equity)
    } else if ticker == "SPX"@ {
        ("S&P 500 Index"@, AssetKind::Index)
    } else if ticker == "SPY"@ {
        ("SPDR S&P 500 ETF Trust"@, AssetKind::Etf)
    } else {
        (ticker, AssetKind::Equity)
    }
}

pub fn asset_summary(entry: &TrackedTicker) -> (r: AssetSummary)
    ensures
        r.ticker == entry.ticker,
        (r.name@, r.kind) == asset_identity(entry.ticker@),
{
    let t = entry.ticker.as_str();
    let (name, kind): (&str, AssetKind) = if same_text(t, "AAPL") {
        ("Apple Inc.", AssetKind::Equity)
    } else if same_text(t, "GOOGL") {
        ("Alphabet Inc.", AssetKind::Equity)
    } else if same_text(t, "IBM") {
        ("IBM", AssetKind::Equity)
    } else if same_text(t, "JPM") {
        ("JPMorgan Chase & Co.", AssetKind::Equity)
    } else if same_text(t, "MSFT") {
        ("Microsoft Corp.", AssetKind::Equity)
    } else if same_text(t, "SPX") {
        ("S&P 500 Index", AssetKind::Index)
    } else if same_text(t, "SPY") {
        ("SPDR S&P 500 ETF Trust", AssetKind::Etf)
    } else {
        (t, AssetKind::Equity)
    };
    AssetSummary { ticker: entry.ticker.clone(), name: name.to_owned(), kind }
}

/// The sum of the realized gains in euros, added in order from zero as
/// `rust_decimal` adds them; `None` where an addition overflows.
pub open spec fn realized_gain_total(realized: Seq<RealizedValue>) -> Option<(int, nat)>
    decreases realized.len(),
{
    if realized.len() == 0 {
        Some((0, 0))
    } else {
        match realized_gain_total(realized.drop_last()) {
            None => None,
            Some(t) => decimal_sum(t, realized.last().6),
        }
    }
}

/// Every open quantity is zero: the portfolio holds no position.
pub open spec fn holds_nothing(totals: Map<(bool, Seq<char>), (int, nat)>) -> bool {
    forall|k: (bool, Seq<char>)| totals.contains_key(k) ==> totals[k].0 == 0
}

/// The summary of a portfolio as the legacy contract shows it: who it is, how many
/// events it has, the realized gain in euros, the cash value in the base currency
/// (only while it holds no position, with a note on the rate used) and the
/// realized gains by currency.
#[derive(Debug, Clone, PartialEq, Eq)]
pub struct PortfolioSummary {
    pub id: String,
    pub name: String,
    pub base_currency: String,
    pub event_count: usize,
    pub realized_gain_eur: Decimal,
    pub net_value_eur: Option<Decimal>,
    pub valuation_note: Option<String>,
    pub realized_gains: Vec<(String, Decimal)>,
}

/// The figures of a summary that do not depend on what could fail.
pub open spec fn summary_fields(s: PortfolioSummary, p: Portfolio, total: (int, nat), net: Option<(int, nat)>, gains: Map<Seq<char>, (int, nat)>) -> bool {
    &&& s.id == p.identity().0
    &&& s.name == p.identity().1
    &&& s.base_currency@ == p.base()
    &&& s.event_count == p.event_log().len()
    &&& s.realized_gain_eur@ == total
    &&& match (s.net_value_eur, net) {
        (Some(v), Some(w)) => v@ == w && (s.valuation_note matches Some(n) && n@
            == "Caixa convertido pela taxa mais recente registada"@),
        (None, None) => s.valuation_note is None,
        _ => false,
    }
    &&& codes_sorted(s.realized_gains@)
    &&& lists_code_map(s.realized_gains@, gains)
}

/// What the summary of a portfolio is, step by step as it is computed: the FIFO
/// projection, its realized total, the positions, the cash value when nothing is
/// held, then the realized gains by currency. `None` where `rust_decimal`
/// overflows; the first error refuses the summary.
pub open spec fn summary_matches(r: Option<Result<PortfolioSummary, PortfolioError>>, p: Portfolio) -> bool {
    let events = p.event_log();
    match spec_fifo_tax_projection(events) {
        None => r is None,
        Some(Err(e)) => r == Some(Err::<PortfolioSummary, PortfolioError>(e)),
        Some(Ok(projection)) => match realized_gain_total(projection.1) {
            None => r is None,
            Some(total) => match position_totals(events) {
                None => r is None,
                Some(totals) => {
                    let cash = if holds_nothing(totals) {
                        spec_cash_value(p)
                    } else {
                        Some(Ok(((0int, 0nat))))
                    };
                    match cash {
                        None => r is None,
                        Some(Err(code)) => (r matches Some(Err(PortfolioError::MissingValuationExchangeRate(c)))
                            && c@ == code),
                        Some(Ok(value)) => {
                            let net = if holds_nothing(totals) {
                                Some(value)
                            } else {
                                None
                            };
                            match spec_realized_gains(events) {
                                None => r is None,
                                Some(Err(e)) => r == Some(Err::<PortfolioSummary, PortfolioError>(e)),
                                Some(Ok(gains)) => (r matches Some(Ok(s)) && summary_fields(
                                    s,
                                    p,
                                    total,
                                    net,
                                    gains,
                                )),
                            }
                        },
                    }
                },
            },
        },
    }
}

fn realized_gain_sum(realized: &Vec<RealizedLot>) -> (r: Option<Decimal>)
    ensures
        match (r, realized_gain_total(realized_values(realized@))) {
            (Some(d), Some(t)) => d@ == t,
            (None, None) => true,
            _ => false,
        },
{
    let ghost values = realized_values(realized@);
    let mut total = Decimal::zero();
    let mut k: usize = 0;
    while k < realized.len()
        invariant
            k <= realized@.len(),
            values == realized_values(realized@),
            realized_gain_total(values.take(k as int)) == Some(total@),
        decreases realized.len() - k,
    {
        proof {
            assert(values.take(k + 1).drop_last() =~= values.take(k as int));
            assert(values.take(k + 1).last() == realized@[k as int]@);
        }
        match checked_add(&total, &realized[k].gain_eur) {
            Some(t) => {
                total = t;
            },
            None => {
                proof {
                    lemma_realized_gain_total_stays_none(values, k as int + 1);
                }
                return None;
            },
        }
        k = k + 1;
    }
    proof {
        assert(values.take(values.len() as int) =~= values);
    }
    Some(total)
}

proof fn lemma_realized_gain_total_stays_none(values: Seq<RealizedValue>, n: int)
    requires
        0 <= n <= values.len(),
        realized_gain_total(values.take(n)) is None,
    ensures
        realized_gain_total(values) is None,
    decreases values.len() - n,
{
    if n < values.len() {
        assert(values.take(n + 1).drop_last() =~= values.take(n));
        lemma_realized_gain_total_stays_none(values, n + 1);
    } else {
        assert(values.take(n) =~= values);
    }
}

/// No addition on the way to the summary overflows.
pub open spec fn summary_defined(p: Portfolio) -> bool {
    let events = p.event_log();
    match spec_fifo_tax_projection(events) {
        None => false,
        Some(Err(_)) => true,
        Some(Ok(projection)) => {
            &&& realized_gain_total(projection.1) is Some
            &&& position_totals(events) is Some
            &&& holds_nothing(position_totals(events)->0) ==> spec_cash_value(p) is Some
            &&& (holds_nothing(position_totals(events)->0) ==> spec_cash_value(p) matches Some(Ok(_)))
                ==> spec_realized_gains(events) is Some
        },
    }
}

/// The summary of a portfolio; `None` where `rust_decimal` overflows.
pub fn checked_summary(portfolio: &Portfolio) -> (r: Option<Result<PortfolioSummary, PortfolioError>>)
    ensures
        summary_matches(r, *portfolio),
{
    let projection = match portfolio.checked_fifo_tax_projection() {
        None => return None,
        Some(Err(e)) => return Some(Err(e)),
        Some(Ok(p)) => p,
    };
    let total = match realized_gain_sum(&projection.realized) {
        None => return None,
        Some(t) => t,
    };
    let positions = match portfolio.checked_positions() {
        None => return None,
        Some(p) => p,
    };
    let ghost totals = position_totals(portfolio.event_log())->0;
    let net = if positions.len() == 0 {
        proof {
            assert(holds_nothing(totals)) by {
                assert forall|k: (bool, Seq<char>)| totals.contains_key(k) implies totals[k].0 == 0 by {
                    if totals[k].0 != 0 {
                        let i = choose|i: int| 0 <= i < positions@.len() && #[trigger] positions@[i].instrument@ == k;
                    }
                }
            }
        }
        match portfolio.checked_cash_value_in_base() {
            None => return None,
            Some(Err(e)) => return Some(Err(e)),
            Some(Ok(m)) => Some(m.amount),
        }
    } else {
        proof {
            let q = positions@[0];
            assert(totals.contains_key(q.instrument@) && totals[q.instrument@].0 != 0);
            assert(!holds_nothing(totals));
        }
        None
    };
    let gains = match portfolio.checked_realized_gains_by_currency() {
        None => return None,
        Some(Err(e)) => return Some(Err(e)),
        Some(Ok(g)) => g,
    };
    let valuation_note = match net {
        Some(_) => Some("Caixa convertido pela taxa mais recente registada".to_owned()),
        None => None,
    };
    let (id, name, base) = portfolio.labels();
    Some(
        Ok(
            PortfolioSummary {
                id: id.clone(),
                name: name.clone(),
                base_currency: base.code().to_owned(),
                event_count: portfolio.events().len(),
                realized_gain_eur: total,
                net_value_eur: net,
                valuation_note,
                realized_gains: gains,
            },
        ),
    )
}

/// The summary of a portfolio: who it is, how many events it has, the realized
/// gain in euros, the cash value in the base currency while it holds no position,
/// and the realized gains by currency. The first error on the way refuses it.
pub fn summary(portfolio: &Portfolio) -> (r: Result<PortfolioSummary, PortfolioError>)
    requires
        summary_defined(*portfolio),
    ensures
        summary_matches(Some(r), *portfolio),
{
    checked_summary(portfolio).unwrap()
}

} // verus!
