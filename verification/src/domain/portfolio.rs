//! Portfolios as an append-only record of events, with positions, cash, FIFO tax lots and
//! realized gains derived from it.

use vstd::prelude::*;
use vstd::string::*;

use crate::decimal::{
    checked_add, checked_div, checked_mul, checked_sub, decimal_difference, decimal_product,
    decimal_quotient, decimal_sum, eq, lemma_units_sign, lemma_units_within_range, lt, min, option_view, units,
    Decimal,
};
use crate::text::{
    ascii_alphabetic, chars_lt, is_ascii_alphabetic, lemma_text_lt_asymmetric,
    lemma_text_lt_irreflexive, lemma_text_lt_transitive, lemma_text_lt_trichotomy, same_text,
    string_from, text_lt, trim, concat, joined,
    trim_upper, trimmed, upper, chars_of,
};
use crate::time::{CalendarDate, UtcInstant};

verus! {

/// An ISO 4217 currency code: three ASCII letters, upper case.
#[derive(Debug, Clone, PartialEq, Eq, Hash)]
pub struct Currency(String);

impl View for Currency {
    type V = Seq<char>;

    closed spec fn view(&self) -> Seq<char> {
        self.0@
    }
}

/// The code `Currency::new` keeps for a text, or `None` when it refuses it.
pub open spec fn spec_currency_code(code: Seq<char>) -> Option<Seq<char>> {
    let c = upper(trimmed(code));
    if c.len() == 3 && forall|i: int| 0 <= i < 3 ==> #[trigger] is_ascii_alphabetic(c[i]) {
        Some(c)
    } else {
        None
    }
}

impl Currency {
    pub fn new(code: &str) -> (r: Result<Self, PortfolioError>)
        ensures
            match r {
                Ok(c) => spec_currency_code(code@) == Some(c@),
                Err(PortfolioError::InvalidCurrency(e)) => spec_currency_code(code@) is None
                    && e@ == upper(trimmed(code@)),
                Err(_) => false,
            },
    {
        let chars = trim_upper(code);
        let text = string_from(&chars);
        if chars.len() != 3 {
            return Err(PortfolioError::InvalidCurrency(text));
        }
        for i in 0..3
            invariant
                chars@.len() == 3,
                chars@ == upper(trimmed(code@)),
                text@ == chars@,
                forall|k: int| 0 <= k < i ==> #[trigger] is_ascii_alphabetic(chars@[k]),
        {
            if !ascii_alphabetic(chars[i]) {
                assert(!is_ascii_alphabetic(chars@[i as int]));
                return Err(PortfolioError::InvalidCurrency(text));
            }
        }
        Ok(Currency(text))
    }

    pub fn eur() -> (r: Self)
        ensures
            r@ == "EUR"@,
    {
        Currency(String::from_str("EUR"))
    }

    pub fn code(&self) -> (r: &str)
        ensures
            r@ == self@,
    {
        self.0.as_str()
    }

    /// Whether two currencies have the same code.
    pub fn same(&self, other: &Currency) -> (r: bool)
        ensures
            r == (self@ == other@),
    {
        same_text(self.0.as_str(), other.0.as_str())
    }

    /// A second currency with the same code.
    pub fn duplicate(&self) -> (r: Currency)
        ensures
            r@ == self@,
    {
        Currency(self.0.clone())
    }
}

#[derive(Debug, Clone, PartialEq, Eq)]
pub struct Money {
    pub amount: Decimal,
    pub currency: Currency,
}

impl Money {
    pub fn new(amount: Decimal, currency: Currency) -> (r: Self)
        ensures
            r.amount == amount,
            r.currency == currency,
    {
        Money { amount, currency }
    }
}

#[derive(Debug, Clone, PartialEq, Eq)]
pub struct ExchangeRate {
    pub base: Currency,
    pub quote: Currency,
    pub rate: Decimal,
    pub reference_date: CalendarDate,
    pub source: String,
}

/// Why a portfolio operation was refused.
#[derive(Debug, Clone, PartialEq, Eq)]
pub enum PortfolioError {
    InvalidCurrency(String),
    InvalidExchangeRate,
    MissingExchangeRateSource,
    ExchangeRateCurrencyMismatch,
    ExchangeAmountsMismatch,
    MissingTransactionId,
    InvalidQuantity,
    InvalidPrice,
    InvalidAmount,
    MissingTaxExchangeRate,
    InvalidWithholdingTax,
    InvalidPortfolioIdentity,
    DuplicateEventId(String),
    UnsupportedShortDisposal(String),
    MixedTradeCurrencies,
    MissingValuationExchangeRate(String),
}

/// Whether the text is empty once white space is trimmed.
fn blank(text: &str) -> (r: bool)
    ensures
        r == (trimmed(text@).len() == 0),
{
    trim(&chars_of(text)).len() == 0
}

/// The amount `money` is worth in `rate.quote`, when `money` is in `rate.base`: `None` where
/// the multiplication overflows.
pub open spec fn spec_convert(rate: ExchangeRate, money: Money) -> Option<
    Result<(int, nat), PortfolioError>,
> {
    if money.currency@ != rate.base@ {
        Some(Err(PortfolioError::ExchangeRateCurrencyMismatch))
    } else {
        match decimal_product(money.amount@, rate.rate@) {
            Some(v) => Some(Ok(v)),
            None => None,
        }
    }
}

impl ExchangeRate {
    pub fn new(
        base: Currency,
        quote: Currency,
        rate: Decimal,
        reference_date: CalendarDate,
        source: String,
    ) -> (r: Result<Self, PortfolioError>)
        ensures
            rate@.0 <= 0 ==> r == Err::<Self, _>(PortfolioError::InvalidExchangeRate),
            rate@.0 > 0 && trimmed(source@).len() == 0 ==> r == Err::<Self, _>(
                PortfolioError::MissingExchangeRateSource,
            ),
            rate@.0 > 0 && trimmed(source@).len() != 0 ==> (r matches Ok(x) && x == (
            ExchangeRate { base, quote, rate, reference_date, source })),
    {
        if !rate.is_positive() {
            return Err(PortfolioError::InvalidExchangeRate);
        }
        if blank(source.as_str()) {
            return Err(PortfolioError::MissingExchangeRateSource);
        }
        Ok(ExchangeRate { base, quote, rate, reference_date, source })
    }

    /// `money` converted into the quote currency; `None` where `rust_decimal` overflows.
    pub fn checked_convert(&self, money: &Money) -> (r: Option<Result<Money, PortfolioError>>)
        ensures
            match (r, spec_convert(*self, *money)) {
                (None, None) => true,
                (Some(Ok(m)), Some(Ok(v))) => m.amount@ == v && m.currency@ == self.quote@,
                (Some(Err(e)), Some(Err(f))) => e == f,
                _ => false,
            },
    {
        if !money.currency.same(&self.base) {
            return Some(Err(PortfolioError::ExchangeRateCurrencyMismatch));
        }
        match checked_mul(&money.amount, &self.rate) {
            Some(amount) => Some(Ok(Money::new(amount, self.quote.duplicate()))),
            None => None,
        }
    }

    /// `money`, which must be in the base currency, converted into the quote currency.
    pub fn convert(&self, money: &Money) -> (r: Result<Money, PortfolioError>)
        requires
            spec_convert(*self, *money) is Some,
        ensures
            match (r, spec_convert(*self, *money)->0) {
                (Ok(m), Ok(v)) => m.amount@ == v && m.currency@ == self.quote@,
                (Err(e), Err(f)) => e == f,
                _ => false,
            },
    {
        match self.checked_convert(money) {
            Some(r) => r,
            None => {
                assert(false);
                Err(PortfolioError::ExchangeRateCurrencyMismatch)
            },
        }
    }
}


#[derive(Debug, Clone, PartialEq, Eq, Hash)]
pub enum Instrument {
    Equity { ticker: String },
    Option { occ_symbol: String },
}

impl View for Instrument {
    /// Whether it is an option, and its symbol.
    type V = (bool, Seq<char>);

    open spec fn view(&self) -> (bool, Seq<char>) {
        match self {
            Instrument::Equity { ticker } => (false, ticker@),
            Instrument::Option { occ_symbol } => (true, occ_symbol@),
        }
    }
}

/// The order instruments are listed in: equities before options, then by symbol.
pub open spec fn instrument_lt(a: (bool, Seq<char>), b: (bool, Seq<char>)) -> bool {
    if a.0 != b.0 {
        !a.0
    } else {
        text_lt(a.1, b.1)
    }
}

impl Instrument {
    pub fn contract_multiplier(&self) -> (r: Decimal)
        ensures
            r@ == (if self@.0 {
                (100int, 0nat)
            } else {
                (1int, 0nat)
            }),
    {
        match self {
            Instrument::Equity { .. } => Decimal::one(),
            Instrument::Option { .. } => Decimal::one_hundred(),
        }
    }

    fn symbol(&self) -> (r: &str)
        ensures
            r@ == self@.1,
    {
        match self {
            Instrument::Equity { ticker } => ticker.as_str(),
            Instrument::Option { occ_symbol } => occ_symbol.as_str(),
        }
    }

    fn is_option(&self) -> (r: bool)
        ensures
            r == self@.0,
    {
        match self {
            Instrument::Equity { .. } => false,
            Instrument::Option { .. } => true,
        }
    }

    /// Whether the two name the same instrument.
    pub fn same(&self, other: &Instrument) -> (r: bool)
        ensures
            r == (self@ == other@),
    {
        self.is_option() == other.is_option() && same_text(self.symbol(), other.symbol())
    }

    /// Whether `self` is listed before `other`.
    pub fn precedes(&self, other: &Instrument) -> (r: bool)
        ensures
            r == instrument_lt(self@, other@),
    {
        if self.is_option() != other.is_option() {
            !self.is_option()
        } else {
            chars_lt(&chars_of(self.symbol()), &chars_of(other.symbol()))
        }
    }

    /// A second value naming the same instrument.
    pub fn duplicate(&self) -> (r: Instrument)
        ensures
            r@ == self@,
    {
        match self {
            Instrument::Equity { ticker } => Instrument::Equity { ticker: ticker.clone() },
            Instrument::Option { occ_symbol } => Instrument::Option {
                occ_symbol: occ_symbol.clone(),
            },
        }
    }
}

#[derive(Debug, Clone, Copy, PartialEq, Eq, Structural)]
pub enum CashMovementKind {
    Deposit,
    Withdrawal,
}

#[derive(Debug, Clone, PartialEq, Eq)]
pub struct CashMovement {
    pub id: String,
    pub occurred_at: UtcInstant,
    pub kind: CashMovementKind,
    pub amount: Money,
}

impl CashMovement {
    pub fn new(id: String, occurred_at: UtcInstant, kind: CashMovementKind, amount: Money) -> (r:
        Result<Self, PortfolioError>)
        ensures
            trimmed(id@).len() == 0 ==> r == Err::<Self, _>(PortfolioError::MissingTransactionId),
            trimmed(id@).len() != 0 && amount.amount@.0 <= 0 ==> r == Err::<Self, _>(
                PortfolioError::InvalidAmount,
            ),
            trimmed(id@).len() != 0 && amount.amount@.0 > 0 ==> (r matches Ok(m) && m == (
            CashMovement { id, occurred_at, kind, amount })),
    {
        if blank(id.as_str()) {
            return Err(PortfolioError::MissingTransactionId);
        }
        if !amount.amount.is_positive() {
            return Err(PortfolioError::InvalidAmount);
        }
        Ok(CashMovement { id, occurred_at, kind, amount })
    }
}

#[derive(Debug, Clone, PartialEq, Eq)]
pub struct CurrencyExchange {
    pub id: String,
    pub occurred_at: UtcInstant,
    pub sold: Money,
    pub bought: Money,
    pub rate: ExchangeRate,
}

/// Which check `CurrencyExchange::new` refuses the inputs at, if any; `None` where converting
/// the bought amount overflows.
pub open spec fn spec_exchange_check(
    id: Seq<char>,
    sold: Money,
    bought: Money,
    rate: ExchangeRate,
) -> Option<Result<(), PortfolioError>> {
    if trimmed(id).len() == 0 {
        Some(Err(PortfolioError::MissingTransactionId))
    } else if sold.amount@.0 <= 0 || bought.amount@.0 <= 0 {
        Some(Err(PortfolioError::InvalidAmount))
    } else if rate.base@ != bought.currency@ || rate.quote@ != sold.currency@ {
        Some(Err(PortfolioError::ExchangeRateCurrencyMismatch))
    } else {
        match decimal_product(bought.amount@, rate.rate@) {
            None => None,
            Some(v) => if units(v) != units(sold.amount@) {
                Some(Err(PortfolioError::ExchangeAmountsMismatch))
            } else {
                Some(Ok(()))
            },
        }
    }
}

impl CurrencyExchange {
    /// The exchange, checked; `None` where converting the bought amount overflows.
    pub fn checked_new(
        id: String,
        occurred_at: UtcInstant,
        sold: Money,
        bought: Money,
        rate: ExchangeRate,
    ) -> (r: Option<Result<Self, PortfolioError>>)
        ensures
            match (r, spec_exchange_check(id@, sold, bought, rate)) {
                (None, None) => true,
                (Some(Ok(x)), Some(Ok(()))) => x == (CurrencyExchange {
                    id,
                    occurred_at,
                    sold,
                    bought,
                    rate,
                }),
                (Some(Err(e)), Some(Err(f))) => e == f,
                _ => false,
            },
    {
        if blank(id.as_str()) {
            return Some(Err(PortfolioError::MissingTransactionId));
        }
        if !sold.amount.is_positive() || !bought.amount.is_positive() {
            return Some(Err(PortfolioError::InvalidAmount));
        }
        if !rate.base.same(&bought.currency) || !rate.quote.same(&sold.currency) {
            return Some(Err(PortfolioError::ExchangeRateCurrencyMismatch));
        }
        match rate.checked_convert(&bought) {
            None => None,
            Some(Err(e)) => Some(Err(e)),
            Some(Ok(converted)) => {
                if !eq(&converted.amount, &sold.amount) {
                    Some(Err(PortfolioError::ExchangeAmountsMismatch))
                } else {
                    Some(Ok(CurrencyExchange { id, occurred_at, sold, bought, rate }))
                }
            },
        }
    }

    /// An exchange of `sold` for `bought` at `rate`, whose base is the bought currency.
    pub fn new(
        id: String,
        occurred_at: UtcInstant,
        sold: Money,
        bought: Money,
        rate: ExchangeRate,
    ) -> (r: Result<Self, PortfolioError>)
        requires
            spec_exchange_check(id@, sold, bought, rate) is Some,
        ensures
            match (r, spec_exchange_check(id@, sold, bought, rate)->0) {
                (Ok(x), Ok(())) => x == (CurrencyExchange { id, occurred_at, sold, bought, rate }),
                (Err(e), Err(f)) => e == f,
                _ => false,
            },
    {
        let ghost (gid, gsold, gbought, grate) = (id, sold, bought, rate);
        match CurrencyExchange::checked_new(id, occurred_at, sold, bought, rate) {
            Some(r) => r,
            None => {
                assert(false);
                Err(PortfolioError::ExchangeAmountsMismatch)
            },
        }
    }
}

#[derive(Debug, Clone, PartialEq, Eq)]
pub struct Dividend {
    pub id: String,
    pub instrument: Instrument,
    pub paid_at: UtcInstant,
    pub gross: Money,
    pub withholding_tax: Money,
    pub tax_rate_to_eur: Option<ExchangeRate>,
}

/// The net amount of a dividend, or `None` when its withholding tax is invalid.
pub open spec fn spec_dividend_net(d: Dividend) -> Option<(int, nat)> {
    if d.gross.currency@ != d.withholding_tax.currency@ || d.withholding_tax.amount@.0 < 0 || units(
        d.gross.amount@,
    ) < units(d.withholding_tax.amount@) {
        None
    } else {
        decimal_difference(d.gross.amount@, d.withholding_tax.amount@)
    }
}

impl Dividend {
    /// The gross amount less the withholding tax, in the gross currency.
    pub fn net(&self) -> (r: Result<Money, PortfolioError>)
        ensures
            match r {
                Ok(m) => spec_dividend_net(*self) == Some(m.amount@) && m.currency@
                    == self.gross.currency@,
                Err(e) => e == PortfolioError::InvalidWithholdingTax && (self.gross.currency@
                    != self.withholding_tax.currency@ || self.withholding_tax.amount@.0 < 0
                    || units(self.gross.amount@) < units(self.withholding_tax.amount@)),
            },
    {
        if !self.gross.currency.same(&self.withholding_tax.currency)
            || self.withholding_tax.amount.is_negative() || lt(
            &self.gross.amount,
            &self.withholding_tax.amount,
        ) {
            return Err(PortfolioError::InvalidWithholdingTax);
        }
        proof {
            use_type_invariant(&self.gross.amount);
            lemma_units_within_range(self.gross.amount@);
            lemma_units_sign(self.withholding_tax.amount@);
        }
        match checked_sub(&self.gross.amount, &self.withholding_tax.amount) {
            Some(amount) => Ok(Money::new(amount, self.gross.currency.duplicate())),
            None => {
                assert(false);
                Err(PortfolioError::InvalidWithholdingTax)
            },
        }
    }
}


#[derive(Debug, Clone, Copy, PartialEq, Eq, Structural)]
pub enum TradeSide {
    Buy,
    Sell,
}

#[derive(Debug, Clone, PartialEq, Eq)]
pub struct Trade {
    pub id: String,
    pub instrument: Instrument,
    pub side: TradeSide,
    pub executed_at: UtcInstant,
    pub quantity: Decimal,
    pub unit_price: Money,
    pub fees: Vec<Money>,
    pub settlement_rate_to_eur: Option<ExchangeRate>,
    pub tax_rate_to_eur: Option<ExchangeRate>,
}

/// An amount and the code of its currency.
pub type MoneyValue = ((int, nat), Seq<char>);

pub open spec fn money_value(m: Money) -> MoneyValue {
    (m.amount@, m.currency@)
}

/// Quantity × contract multiplier × unit price, `None` where it overflows.
pub open spec fn spec_gross_amount(t: Trade) -> Option<(int, nat)> {
    let multiplier = if t.instrument@.0 {
        (100int, 0nat)
    } else {
        (1int, 0nat)
    };
    match decimal_product(t.quantity@, multiplier) {
        Some(q) => decimal_product(q, t.unit_price.amount@),
        None => None,
    }
}

/// An amount in euros for tax purposes: kept when already in euros, otherwise converted with
/// the trade's recorded historical rate. `None` where the conversion overflows.
pub open spec fn spec_money_for_tax(t: Trade, m: MoneyValue) -> Option<
    Result<MoneyValue, PortfolioError>,
> {
    if m.1 == "EUR"@ {
        Some(Ok(m))
    } else {
        match t.tax_rate_to_eur {
            None => Some(Err(PortfolioError::MissingTaxExchangeRate)),
            Some(rate) => if m.1 != rate.base@ {
                Some(Err(PortfolioError::ExchangeRateCurrencyMismatch))
            } else {
                match decimal_product(m.0, rate.rate@) {
                    Some(v) => Some(Ok((v, rate.quote@))),
                    None => None,
                }
            },
        }
    }
}

pub open spec fn spec_gross_amount_for_tax(t: Trade) -> Option<Result<MoneyValue, PortfolioError>> {
    match spec_gross_amount(t) {
        Some(g) => spec_money_for_tax(t, (g, t.unit_price.currency@)),
        None => None,
    }
}

pub open spec fn outcome_matches(
    r: Option<Result<Money, PortfolioError>>,
    s: Option<Result<MoneyValue, PortfolioError>>,
) -> bool {
    match (r, s) {
        (None, None) => true,
        (Some(Ok(m)), Some(Ok(v))) => money_value(m) == v,
        (Some(Err(e)), Some(Err(f))) => e == f,
        _ => false,
    }
}

pub open spec fn result_matches(
    r: Result<Money, PortfolioError>,
    s: Result<MoneyValue, PortfolioError>,
) -> bool {
    match (r, s) {
        (Ok(m), Ok(v)) => money_value(m) == v,
        (Err(e), Err(f)) => e == f,
        _ => false,
    }
}

impl Trade {
    pub fn new(
        id: String,
        instrument: Instrument,
        side: TradeSide,
        executed_at: UtcInstant,
        quantity: Decimal,
        unit_price: Money,
    ) -> (r: Result<Self, PortfolioError>)
        ensures
            trimmed(id@).len() == 0 ==> r == Err::<Self, _>(PortfolioError::MissingTransactionId),
            trimmed(id@).len() != 0 && quantity@.0 <= 0 ==> r == Err::<Self, _>(
                PortfolioError::InvalidQuantity,
            ),
            trimmed(id@).len() != 0 && quantity@.0 > 0 && unit_price.amount@.0 < 0 ==> r == Err::<
                Self,
                _,
            >(PortfolioError::InvalidPrice),
            trimmed(id@).len() != 0 && quantity@.0 > 0 && unit_price.amount@.0 >= 0 ==> (r matches Ok(
                t,
            ) && t.id == id && t.instrument == instrument && t.side == side && t.executed_at
                == executed_at && t.quantity == quantity && t.unit_price == unit_price
                && t.fees@.len() == 0 && t.settlement_rate_to_eur is None
                && t.tax_rate_to_eur is None),
    {
        if blank(id.as_str()) {
            return Err(PortfolioError::MissingTransactionId);
        }
        if !quantity.is_positive() {
            return Err(PortfolioError::InvalidQuantity);
        }
        if unit_price.amount.is_negative() {
            return Err(PortfolioError::InvalidPrice);
        }
        Ok(Trade {
            id,
            instrument,
            side,
            executed_at,
            quantity,
            unit_price,
            fees: Vec::new(),
            settlement_rate_to_eur: None,
            tax_rate_to_eur: None,
        })
    }

    /// The gross amount; `None` where `rust_decimal` overflows.
    pub fn checked_gross_amount(&self) -> (r: Option<Money>)
        ensures
            match r {
                Some(m) => spec_gross_amount(*self) == Some(m.amount@) && m.currency@
                    == self.unit_price.currency@,
                None => spec_gross_amount(*self) is None,
            },
    {
        let multiplier = self.instrument.contract_multiplier();
        match checked_mul(&self.quantity, &multiplier) {
            None => None,
            Some(q) => match checked_mul(&q, &self.unit_price.amount) {
                None => None,
                Some(amount) => Some(Money::new(amount, self.unit_price.currency.duplicate())),
            },
        }
    }

    /// Quantity × contract multiplier × unit price, in the price currency.
    pub fn gross_amount(&self) -> (r: Money)
        requires
            spec_gross_amount(*self) is Some,
        ensures
            spec_gross_amount(*self) == Some(r.amount@),
            r.currency@ == self.unit_price.currency@,
    {
        self.checked_gross_amount().unwrap()
    }

    /// `money` in euros for tax purposes; `None` where the conversion overflows.
    pub fn checked_money_for_tax_in_eur(&self, money: &Money) -> (r: Option<
        Result<Money, PortfolioError>,
    >)
        ensures
            outcome_matches(r, spec_money_for_tax(*self, money_value(*money))),
    {
        if same_text(money.currency.code(), "EUR") {
            return Some(Ok(Money::new(money.amount, money.currency.duplicate())));
        }
        match &self.tax_rate_to_eur {
            None => Some(Err(PortfolioError::MissingTaxExchangeRate)),
            Some(rate) => rate.checked_convert(money),
        }
    }

    /// The gross amount in euros for tax purposes; `None` where `rust_decimal` overflows.
    pub fn checked_gross_amount_for_tax_in_eur(&self) -> (r: Option<
        Result<Money, PortfolioError>,
    >)
        ensures
            outcome_matches(r, spec_gross_amount_for_tax(*self)),
    {
        match self.checked_gross_amount() {
            None => None,
            Some(gross) => self.checked_money_for_tax_in_eur(&gross),
        }
    }

    /// The gross amount in euros, converted with the recorded historical tax rate.
    pub fn gross_amount_for_tax_in_eur(&self) -> (r: Result<Money, PortfolioError>)
        requires
            spec_gross_amount_for_tax(*self) is Some,
        ensures
            result_matches(r, spec_gross_amount_for_tax(*self)->0),
    {
        self.checked_gross_amount_for_tax_in_eur().unwrap()
    }
}

#[derive(Debug, Clone, PartialEq, Eq)]
pub enum PortfolioEvent {
    Trade(Trade),
    CashMovement(CashMovement),
    Dividend(Dividend),
    CurrencyExchange(CurrencyExchange),
}

pub open spec fn event_id(e: PortfolioEvent) -> Seq<char> {
    match e {
        PortfolioEvent::Trade(v) => v.id@,
        PortfolioEvent::CashMovement(v) => v.id@,
        PortfolioEvent::CurrencyExchange(v) => v.id@,
        PortfolioEvent::Dividend(v) => v.id@,
    }
}

impl PortfolioEvent {
    pub fn id(&self) -> (r: &str)
        ensures
            r@ == event_id(*self),
    {
        match self {
            PortfolioEvent::Trade(v) => v.id.as_str(),
            PortfolioEvent::CashMovement(v) => v.id.as_str(),
            PortfolioEvent::CurrencyExchange(v) => v.id.as_str(),
            PortfolioEvent::Dividend(v) => v.id.as_str(),
        }
    }

    pub fn occurred_at(&self) -> (r: UtcInstant)
        ensures
            r == match self {
                PortfolioEvent::Trade(v) => v.executed_at,
                PortfolioEvent::CashMovement(v) => v.occurred_at,
                PortfolioEvent::CurrencyExchange(v) => v.occurred_at,
                PortfolioEvent::Dividend(v) => v.paid_at,
            },
    {
        match self {
            PortfolioEvent::Trade(v) => v.executed_at,
            PortfolioEvent::CashMovement(v) => v.occurred_at,
            PortfolioEvent::CurrencyExchange(v) => v.occurred_at,
            PortfolioEvent::Dividend(v) => v.paid_at,
        }
    }

    pub fn kind_name(&self) -> (r: &'static str)
        ensures
            r@ == match self {
                PortfolioEvent::Trade(_) => "trade"@,
                PortfolioEvent::CashMovement(_) => "cash_movement"@,
                PortfolioEvent::CurrencyExchange(_) => "currency_exchange"@,
                PortfolioEvent::Dividend(_) => "dividend"@,
            },
    {
        match self {
            PortfolioEvent::Trade(_) => "trade",
            PortfolioEvent::CashMovement(_) => "cash_movement",
            PortfolioEvent::CurrencyExchange(_) => "currency_exchange",
            PortfolioEvent::Dividend(_) => "dividend",
        }
    }
}

#[derive(Debug, Clone, PartialEq, Eq)]
pub struct Position {
    pub instrument: Instrument,
    pub quantity: Decimal,
}

#[derive(Debug, Clone, PartialEq, Eq)]
pub struct TaxLot {
    pub acquisition_trade_id: String,
    pub instrument: Instrument,
    pub acquired_at: UtcInstant,
    pub remaining_quantity: Decimal,
    pub unit_cost_eur: Decimal,
}

#[derive(Debug, Clone, PartialEq, Eq)]
pub struct RealizedLot {
    pub acquisition_trade_id: String,
    pub disposal_trade_id: String,
    pub instrument: Instrument,
    pub quantity: Decimal,
    pub acquisition_cost_eur: Decimal,
    pub disposal_proceeds_eur: Decimal,
    pub gain_eur: Decimal,
}

#[derive(Debug, Clone, PartialEq, Eq)]
pub struct FifoTaxProjection {
    pub open_lots: Vec<TaxLot>,
    pub realized: Vec<RealizedLot>,
}

#[derive(Debug, Clone, PartialEq, Eq)]
pub struct Portfolio {
    pub id: String,
    pub name: String,
    pub base_currency: Currency,
    events: Vec<PortfolioEvent>,
}

/// No two events share an identifier.
pub open spec fn unique_ids(events: Seq<PortfolioEvent>) -> bool {
    forall|i: int, j: int|
        0 <= i < j < events.len() ==> event_id(#[trigger] events[i]) != event_id(#[trigger] events[j])
}

impl Portfolio {
    /// The events recorded so far, oldest first.
    pub closed spec fn event_log(self) -> Seq<PortfolioEvent> {
        self.events@
    }

    pub closed spec fn identity(self) -> (String, String, Currency) {
        (self.id, self.name, self.base_currency)
    }

    pub closed spec fn base(self) -> Seq<char> {
        self.base_currency@
    }

    pub fn new(id: String, name: String, base_currency: Currency) -> (r: Result<
        Self,
        PortfolioError,
    >)
        ensures
            trimmed(id@).len() == 0 || trimmed(name@).len() == 0 ==> r == Err::<Self, _>(
                PortfolioError::InvalidPortfolioIdentity,
            ),
            trimmed(id@).len() != 0 && trimmed(name@).len() != 0 ==> (r matches Ok(p) && p.identity() == (
            id,
            name,
            base_currency,
        ) && p.base() == base_currency@ && p.event_log().len() == 0),
    {
        if blank(id.as_str()) || blank(name.as_str()) {
            return Err(PortfolioError::InvalidPortfolioIdentity);
        }
        Ok(Portfolio { id, name, base_currency, events: Vec::new() })
    }

    /// Appends an event, refusing one whose identifier is already recorded.
    pub fn record(&mut self, event: PortfolioEvent) -> (r: Result<(), PortfolioError>)
        ensures
            final(self).identity() == old(self).identity(),
            final(self).base() == old(self).base(),
            (exists|i: int|
                0 <= i < old(self).event_log().len() && event_id(old(self).event_log()[i])
                    == event_id(event)) ==> (r matches Err(PortfolioError::DuplicateEventId(d))
                && d@ == event_id(event) && final(self).event_log() == old(self).event_log()),
            (forall|i: int|
                0 <= i < old(self).event_log().len() ==> event_id(old(self).event_log()[i])
                    != event_id(event)) ==> (r is Ok && final(self).event_log() == old(
                self,
            ).event_log().push(event)),
            unique_ids(old(self).event_log()) ==> unique_ids(final(self).event_log()),
    {
        for i in 0..self.events.len()
            invariant
                self.events@ == old(self).events@,
                self.id == old(self).id,
                self.name == old(self).name,
                self.base_currency == old(self).base_currency,
                forall|k: int| 0 <= k < i ==> event_id(self.events@[k]) != event_id(event),
        {
            if same_text(self.events[i].id(), event.id()) {
                assert(event_id(self.events@[i as int]) == event_id(event));
                assert(event_id(old(self).event_log()[i as int]) == event_id(event));
                return Err(PortfolioError::DuplicateEventId(String::from_str(event.id())));
            }
        }
        self.events.push(event);
        Ok(())
    }

    pub fn events(&self) -> (r: &[PortfolioEvent])
        ensures
            r@ == self.event_log(),
    {
        self.events.as_slice()
    }

    /// The portfolio's identifier, name and base currency.
    pub fn labels(&self) -> (r: (&String, &String, &Currency))
        ensures
            *r.0 == self.identity().0,
            *r.1 == self.identity().1,
            *r.2 == self.identity().2,
            r.2@ == self.base(),
    {
        (&self.id, &self.name, &self.base_currency)
    }
}


pub proof fn lemma_instrument_lt_order(a: (bool, Seq<char>), b: (bool, Seq<char>), c: (bool, Seq<char>))
    ensures
        !instrument_lt(a, a),
        instrument_lt(a, b) ==> !instrument_lt(b, a),
        instrument_lt(a, b) && instrument_lt(b, c) ==> instrument_lt(a, c),
        a == b || instrument_lt(a, b) || instrument_lt(b, a),
{
    lemma_text_lt_irreflexive(a.1);
    lemma_text_lt_asymmetric(a.1, b.1);
    lemma_text_lt_transitive(a.1, b.1, c.1);
    lemma_text_lt_trichotomy(a.1, b.1);
}

/// Instruments listed in strictly increasing order, hence each at most once.
pub open spec fn instruments_sorted<V>(entries: Seq<(Instrument, V)>) -> bool {
    forall|i: int, j: int|
        0 <= i < j < entries.len() ==> instrument_lt(
            #[trigger] entries[i].0@,
            #[trigger] entries[j].0@,
        )
}

/// Where `k` stands, or would stand, in a sorted list of entries.
fn find_instrument<V>(entries: &Vec<(Instrument, V)>, k: &Instrument) -> (r: (usize, bool))
    requires
        instruments_sorted(entries@),
    ensures
        r.0 <= entries@.len(),
        r.1 ==> r.0 < entries@.len() && entries@[r.0 as int].0@ == k@,
        !r.1 ==> forall|i: int|
            0 <= i < entries@.len() ==> (i < r.0 ==> instrument_lt(entries@[i].0@, k@)) && (i >= r.0
                ==> instrument_lt(k@, entries@[i].0@)),
{
    let mut i: usize = 0;
    while i < entries.len() && entries[i].0.precedes(k)
        invariant
            i <= entries@.len(),
            instruments_sorted(entries@),
            forall|j: int| 0 <= j < i ==> instrument_lt(entries@[j].0@, k@),
        decreases entries.len() - i,
    {
        i = i + 1;
    }
    if i < entries.len() && entries[i].0.same(k) {
        return (i, true);
    }
    proof {
        if i < entries@.len() {
            lemma_instrument_lt_order(entries@[i as int].0@, k@, k@);
            assert forall|j: int| i <= j < entries@.len() implies instrument_lt(
                k@,
                entries@[j].0@,
            ) by {
                lemma_instrument_lt_order(k@, entries@[i as int].0@, entries@[j].0@);
                lemma_instrument_lt_order(entries@[i as int].0@, k@, entries@[j].0@);
            }
        }
    }
    (i, false)
}

pub open spec fn side_sign(side: TradeSide) -> (int, nat) {
    match side {
        TradeSide::Buy => (1int, 0nat),
        TradeSide::Sell => (-1int, 0nat),
    }
}

/// The net quantity held of each instrument after the events, adding `±1 × quantity` for each
/// trade with `rust_decimal`; `None` where an operation overflows.
pub open spec fn position_totals(events: Seq<PortfolioEvent>) -> Option<
    Map<(bool, Seq<char>), (int, nat)>,
>
    decreases events.len(),
{
    if events.len() == 0 {
        Some(Map::empty())
    } else {
        match position_totals(events.drop_last()) {
            None => None,
            Some(m) => match events.last() {
                PortfolioEvent::Trade(t) => {
                    let k = t.instrument@;
                    let previous = if m.contains_key(k) {
                        m[k]
                    } else {
                        (0int, 0nat)
                    };
                    match decimal_product(side_sign(t.side), t.quantity@) {
                        None => None,
                        Some(q) => match decimal_sum(previous, q) {
                            None => None,
                            Some(v) => Some(m.insert(k, v)),
                        },
                    }
                },
                _ => Some(m),
            },
        }
    }
}

/// The entries list exactly the keys of `m`, each with its value.
pub open spec fn lists_instrument_map(
    entries: Seq<(Instrument, Decimal)>,
    m: Map<(bool, Seq<char>), (int, nat)>,
) -> bool {
    &&& forall|i: int|
        0 <= i < entries.len() ==> m.contains_key(#[trigger] entries[i].0@) && m[entries[i].0@]
            == entries[i].1@
    &&& forall|k: (bool, Seq<char>)|
        m.contains_key(k) ==> exists|i: int| 0 <= i < entries.len() && #[trigger] entries[i].0@ == k
}

/// The open positions: the instruments whose net quantity is not zero, in instrument order.
pub open spec fn are_positions(r: Seq<Position>, m: Map<(bool, Seq<char>), (int, nat)>) -> bool {
    &&& forall|i: int, j: int|
        0 <= i < j < r.len() ==> instrument_lt(
            #[trigger] r[i].instrument@,
            #[trigger] r[j].instrument@,
        )
    &&& forall|i: int|
        0 <= i < r.len() ==> m.contains_key(#[trigger] r[i].instrument@) && m[r[i].instrument@]
            == r[i].quantity@ && r[i].quantity@.0 != 0
    &&& forall|k: (bool, Seq<char>)|
        m.contains_key(k) && m[k].0 != 0 ==> exists|i: int|
            0 <= i < r.len() && #[trigger] r[i].instrument@ == k
}

proof fn lemma_instrument_entries_update(
    entries: Seq<(Instrument, Decimal)>,
    slot: int,
    entry: (Instrument, Decimal),
    m: Map<(bool, Seq<char>), (int, nat)>,
)
    requires
        instruments_sorted(entries),
        lists_instrument_map(entries, m),
        0 <= slot < entries.len(),
        entry.0@ == entries[slot].0@,
    ensures
        instruments_sorted(entries.update(slot, entry)),
        lists_instrument_map(entries.update(slot, entry), m.insert(entry.0@, entry.1@)),
{
    let e2 = entries.update(slot, entry);
    let m2 = m.insert(entry.0@, entry.1@);
    assert forall|i: int, j: int| 0 <= i < j < e2.len() implies instrument_lt(
        #[trigger] e2[i].0@,
        #[trigger] e2[j].0@,
    ) by {
        assert(instrument_lt(entries[i].0@, entries[j].0@));
    }
    assert forall|i: int| 0 <= i < e2.len() implies m2.contains_key(#[trigger] e2[i].0@) && m2[e2[i].0@]
        == e2[i].1@ by {
        if i != slot {
            if i < slot {
                assert(instrument_lt(entries[i].0@, entries[slot].0@));
            } else {
                assert(instrument_lt(entries[slot].0@, entries[i].0@));
            }
            lemma_instrument_lt_order(entries[i].0@, entries[slot].0@, entries[i].0@);
            lemma_instrument_lt_order(entries[slot].0@, entries[i].0@, entries[i].0@);
        }
    }
    assert forall|k: (bool, Seq<char>)| m2.contains_key(k) implies exists|i: int|
        0 <= i < e2.len() && #[trigger] e2[i].0@ == k by {
        if k == entry.0@ {
            assert(e2[slot].0@ == k);
        } else {
            let i = choose|i: int| 0 <= i < entries.len() && #[trigger] entries[i].0@ == k;
            assert(e2[i].0@ == k);
        }
    }
}

proof fn lemma_instrument_entries_insert(
    entries: Seq<(Instrument, Decimal)>,
    slot: int,
    entry: (Instrument, Decimal),
    m: Map<(bool, Seq<char>), (int, nat)>,
)
    requires
        instruments_sorted(entries),
        lists_instrument_map(entries, m),
        0 <= slot <= entries.len(),
        forall|i: int|
            0 <= i < entries.len() ==> (i < slot ==> instrument_lt(entries[i].0@, entry.0@)) && (i
                >= slot ==> instrument_lt(entry.0@, entries[i].0@)),
    ensures
        !m.contains_key(entry.0@),
        instruments_sorted(entries.insert(slot, entry)),
        lists_instrument_map(entries.insert(slot, entry), m.insert(entry.0@, entry.1@)),
{
    let e2 = entries.insert(slot, entry);
    let m2 = m.insert(entry.0@, entry.1@);
    if m.contains_key(entry.0@) {
        let i = choose|i: int| 0 <= i < entries.len() && #[trigger] entries[i].0@ == entry.0@;
        lemma_instrument_lt_order(entry.0@, entry.0@, entry.0@);
    }
    assert forall|i: int, j: int| 0 <= i < j < e2.len() implies instrument_lt(
        #[trigger] e2[i].0@,
        #[trigger] e2[j].0@,
    ) by {
        if j < slot {
            assert(instrument_lt(entries[i].0@, entries[j].0@));
        } else if j == slot {
            assert(instrument_lt(entries[i].0@, entry.0@));
        } else if i > slot {
            assert(instrument_lt(entries[i - 1].0@, entries[j - 1].0@));
        } else if i == slot {
            assert(instrument_lt(entry.0@, entries[j - 1].0@));
        } else {
            assert(instrument_lt(entries[i].0@, entry.0@));
            assert(instrument_lt(entry.0@, entries[j - 1].0@));
            lemma_instrument_lt_order(entries[i].0@, entry.0@, entries[j - 1].0@);
        }
    }
    assert forall|i: int| 0 <= i < e2.len() implies m2.contains_key(#[trigger] e2[i].0@) && m2[e2[i].0@]
        == e2[i].1@ by {
        if i != slot {
            let old_i = if i < slot {
                i
            } else {
                i - 1
            };
            assert(e2[i] == entries[old_i]);
            lemma_instrument_lt_order(entries[old_i].0@, entry.0@, entries[old_i].0@);
            lemma_instrument_lt_order(entry.0@, entries[old_i].0@, entries[old_i].0@);
        }
    }
    assert forall|k: (bool, Seq<char>)| m2.contains_key(k) implies exists|i: int|
        0 <= i < e2.len() && #[trigger] e2[i].0@ == k by {
        if k == entry.0@ {
            assert(e2[slot].0@ == k);
        } else {
            let i = choose|i: int| 0 <= i < entries.len() && #[trigger] entries[i].0@ == k;
            if i < slot {
                assert(e2[i].0@ == k);
            } else {
                assert(e2[i + 1].0@ == k);
            }
        }
    }
}

/// The entries whose value is not zero, as positions, in the same order.
fn open_positions(entries: &Vec<(Instrument, Decimal)>) -> (positions: Vec<Position>)
    requires
        instruments_sorted(entries@),
    ensures
        forall|p: int, q: int|
            0 <= p < q < positions@.len() ==> instrument_lt(
                #[trigger] positions@[p].instrument@,
                #[trigger] positions@[q].instrument@,
            ),
        forall|p: int|
            #![trigger positions@[p]]
            0 <= p < positions@.len() ==> positions@[p].quantity@.0 != 0 && exists|j: int|
                0 <= j < entries@.len() && #[trigger] entries@[j].0@ == positions@[p].instrument@
                    && entries@[j].1@ == positions@[p].quantity@,
        forall|j: int|
            0 <= j < entries@.len() && entries@[j].1@.0 != 0 ==> exists|p: int|
                0 <= p < positions@.len() && #[trigger] positions@[p].instrument@ == entries@[j].0@,
{
    let mut positions: Vec<Position> = Vec::new();
    let ghost mut src: Seq<int> = Seq::empty();
    for i in 0..entries.len()
        invariant
            src.len() == positions@.len(),
            forall|p: int|
                0 <= p < src.len() ==> 0 <= #[trigger] src[p] < i && entries@[src[p]].0@
                    == positions@[p].instrument@ && entries@[src[p]].1@ == positions@[p].quantity@
                    && positions@[p].quantity@.0 != 0,
            forall|p: int, q: int| 0 <= p < q < src.len() ==> #[trigger] src[p] < #[trigger] src[q],
            forall|j: int| 0 <= j < i && entries@[j].1@.0 != 0 ==> #[trigger] src.contains(j),
    {
        if !entries[i].1.is_zero() {
            let position = Position { instrument: entries[i].0.duplicate(), quantity: entries[i].1 };
            positions.push(position);
            proof {
                let old_src = src;
                assert forall|j: int| 0 <= j < i && entries@[j].1@.0 != 0 implies old_src.contains(j) by {}
                src = src.push(i as int);
                assert forall|j: int| 0 <= j < i + 1 && entries@[j].1@.0 != 0 implies #[trigger] src.contains(j) by {
                    if j < i {
                        assert(old_src.contains(j));
                        let p = choose|p: int| 0 <= p < old_src.len() && old_src[p] == j;
                        assert(src[p] == j);
                    } else {
                        assert(src[src.len() - 1] == j);
                    }
                }
            }
        } else {
            proof {
                assert forall|j: int| 0 <= j < i + 1 && entries@[j].1@.0 != 0 implies #[trigger] src.contains(j) by {
                    if j < i {
                    }
                }
            }
        }
    }
    proof {
        assert forall|p: int, q: int| 0 <= p < q < positions@.len() implies instrument_lt(
            #[trigger] positions@[p].instrument@,
            #[trigger] positions@[q].instrument@,
        ) by {
            assert(src[p] < src[q]);
            assert(instrument_lt(entries@[src[p]].0@, entries@[src[q]].0@));
        }
        assert forall|p: int| #![trigger positions@[p]] 0 <= p < positions@.len() implies positions@[p].quantity@.0 != 0 && exists|j: int|
            0 <= j < entries@.len() && #[trigger] entries@[j].0@ == positions@[p].instrument@
                && entries@[j].1@ == positions@[p].quantity@ by {
            let j = src[p];
            assert(entries@[j].0@ == positions@[p].instrument@);
        }
        assert forall|j: int| 0 <= j < entries@.len() && entries@[j].1@.0 != 0 implies exists|p: int|
            0 <= p < positions@.len() && #[trigger] positions@[p].instrument@ == entries@[j].0@ by {
            assert(src.contains(j));
            let p = choose|p: int| 0 <= p < src.len() && src[p] == j;
            assert(positions@[p].instrument@ == entries@[j].0@);
        }
    }
    positions
}

/// When the totals of some first events overflow, so do those of all events.
proof fn lemma_position_totals_prefix(events: Seq<PortfolioEvent>, i: int)
    requires
        0 <= i <= events.len(),
        position_totals(events.take(i)) is None,
    ensures
        position_totals(events) is None,
    decreases events.len() - i,
{
    if i == events.len() {
        assert(events.take(i) =~= events);
    } else {
        assert(events.take(i + 1).drop_last() =~= events.take(i));
        lemma_position_totals_prefix(events, i + 1);
    }
}

impl Portfolio {
    /// The open positions; `None` where `rust_decimal` overflows.
    pub fn checked_positions(&self) -> (r: Option<Vec<Position>>)
        ensures
            match r {
                None => position_totals(self.event_log()) is None,
                Some(p) => position_totals(self.event_log()) is Some && are_positions(
                    p@,
                    position_totals(self.event_log())->0,
                ),
            },
    {
        let mut entries: Vec<(Instrument, Decimal)> = Vec::new();
        let n = self.events.len();
        for idx in 0..n
            invariant
                n == self.events@.len(),
                position_totals(self.events@.take(idx as int)) is Some,
                instruments_sorted(entries@),
                lists_instrument_map(entries@, position_totals(self.events@.take(idx as int))->0),
        {
            let ghost m = position_totals(self.events@.take(idx as int))->0;
            proof {
                assert(self.events@.take(idx + 1).drop_last() =~= self.events@.take(idx as int));
                assert(self.events@.take(idx + 1).last() == self.events@[idx as int]);
            }
            match &self.events[idx] {
                PortfolioEvent::Trade(trade) => {
                    let sign = match trade.side {
                        TradeSide::Buy => Decimal::one(),
                        TradeSide::Sell => Decimal::minus_one(),
                    };
                    let signed = match checked_mul(&sign, &trade.quantity) {
                        Some(q) => q,
                        None => {
                            proof {
                                lemma_position_totals_prefix(self.events@, idx + 1);
                            }
                            return None;
                        },
                    };
                    let (slot, found) = find_instrument(&entries, &trade.instrument);
                    if found {
                        let total = match checked_add(&entries[slot].1, &signed) {
                            Some(v) => v,
                            None => {
                                proof {
                                    lemma_position_totals_prefix(self.events@, idx + 1);
                                }
                                return None;
                            },
                        };
                        let key = entries[slot].0.duplicate();
                        proof {
                            lemma_instrument_entries_update(entries@, slot as int, (key, total), m);
                        }
                        entries.set(slot, (key, total));
                    } else {
                        let zero = Decimal::zero();
                        proof {
                            if m.contains_key(trade.instrument@) {
                                let i = choose|i: int|
                                    0 <= i < entries@.len() && #[trigger] entries@[i].0@
                                        == trade.instrument@;
                                lemma_instrument_lt_order(trade.instrument@, trade.instrument@, trade.instrument@);
                            }
                        }
                        let total = match checked_add(&zero, &signed) {
                            Some(v) => v,
                            None => {
                                proof {
                                    lemma_position_totals_prefix(self.events@, idx + 1);
                                }
                                return None;
                            },
                        };
                        let key = trade.instrument.duplicate();
                        proof {
                            lemma_instrument_entries_insert(entries@, slot as int, (key, total), m);
                        }
                        entries.insert(slot, (key, total));
                    }
                },
                _ => {},
            }
        }
        proof {
            assert(self.events@.take(n as int) =~= self.events@);
        }
        let ghost totals = position_totals(self.events@)->0;
        let positions = open_positions(&entries);
        proof {
            assert forall|p: int| 0 <= p < positions@.len() implies totals.contains_key(
                #[trigger] positions@[p].instrument@,
            ) && totals[positions@[p].instrument@] == positions@[p].quantity@
                && positions@[p].quantity@.0 != 0 by {
                let j = choose|j: int|
                    0 <= j < entries@.len() && #[trigger] entries@[j].0@ == positions@[p].instrument@
                        && entries@[j].1@ == positions@[p].quantity@;
            }
            assert forall|k: (bool, Seq<char>)| totals.contains_key(k) && totals[k].0 != 0 implies exists|
                p: int,
            | 0 <= p < positions@.len() && #[trigger] positions@[p].instrument@ == k by {
                let j = choose|j: int| 0 <= j < entries@.len() && #[trigger] entries@[j].0@ == k;
                assert(entries@[j].1@ == totals[k]);
            }
        }
        Some(positions)
    }

    /// The open positions: each instrument whose net traded quantity is not zero, with that
    /// quantity, in instrument order.
    pub fn positions(&self) -> (r: Vec<Position>)
        requires
            position_totals(self.event_log()) is Some,
        ensures
            are_positions(r@, position_totals(self.event_log())->0),
    {
        self.checked_positions().unwrap()
    }
}


/// Currency codes listed in strictly increasing order, hence each at most once.
pub open spec fn codes_sorted<V>(entries: Seq<(String, V)>) -> bool {
    forall|i: int, j: int|
        0 <= i < j < entries.len() ==> text_lt(#[trigger] entries[i].0@, #[trigger] entries[j].0@)
}

/// The entries list exactly the keys of `m`, each with its value.
pub open spec fn lists_code_map(entries: Seq<(String, Decimal)>, m: Map<Seq<char>, (int, nat)>) -> bool {
    &&& forall|i: int|
        0 <= i < entries.len() ==> m.contains_key(#[trigger] entries[i].0@) && m[entries[i].0@]
            == entries[i].1@
    &&& forall|k: Seq<char>|
        m.contains_key(k) ==> exists|i: int| 0 <= i < entries.len() && #[trigger] entries[i].0@ == k
}

pub proof fn lemma_text_lt_order(a: Seq<char>, b: Seq<char>, c: Seq<char>)
    ensures
        !text_lt(a, a),
        text_lt(a, b) ==> !text_lt(b, a),
        text_lt(a, b) && text_lt(b, c) ==> text_lt(a, c),
        a == b || text_lt(a, b) || text_lt(b, a),
{
    lemma_text_lt_irreflexive(a);
    lemma_text_lt_asymmetric(a, b);
    lemma_text_lt_transitive(a, b, c);
    lemma_text_lt_trichotomy(a, b);
}

/// Where `k` stands, or would stand, in a list of entries sorted by code.
fn find_code<V>(entries: &Vec<(String, V)>, k: &str) -> (r: (usize, bool))
    requires
        codes_sorted(entries@),
    ensures
        r.0 <= entries@.len(),
        r.1 ==> r.0 < entries@.len() && entries@[r.0 as int].0@ == k@,
        !r.1 ==> forall|i: int|
            0 <= i < entries@.len() ==> (i < r.0 ==> text_lt(entries@[i].0@, k@)) && (i >= r.0
                ==> text_lt(k@, entries@[i].0@)),
{
    let key = chars_of(k);
    let mut i: usize = 0;
    while i < entries.len() && chars_lt(&chars_of(entries[i].0.as_str()), &key)
        invariant
            i <= entries@.len(),
            key@ == k@,
            codes_sorted(entries@),
            forall|j: int| 0 <= j < i ==> text_lt(entries@[j].0@, k@),
        decreases entries.len() - i,
    {
        i = i + 1;
    }
    if i < entries.len() && same_text(entries[i].0.as_str(), k) {
        return (i, true);
    }
    proof {
        if i < entries@.len() {
            lemma_text_lt_order(entries@[i as int].0@, k@, k@);
            assert forall|j: int| i <= j < entries@.len() implies text_lt(k@, entries@[j].0@) by {
                lemma_text_lt_order(k@, entries@[i as int].0@, entries@[j].0@);
                lemma_text_lt_order(entries@[i as int].0@, k@, entries@[j].0@);
            }
        }
    }
    (i, false)
}

proof fn lemma_code_entries_update(
    entries: Seq<(String, Decimal)>,
    slot: int,
    entry: (String, Decimal),
    m: Map<Seq<char>, (int, nat)>,
)
    requires
        codes_sorted(entries),
        lists_code_map(entries, m),
        0 <= slot < entries.len(),
        entry.0@ == entries[slot].0@,
    ensures
        codes_sorted(entries.update(slot, entry)),
        lists_code_map(entries.update(slot, entry), m.insert(entry.0@, entry.1@)),
{
    let e2 = entries.update(slot, entry);
    let m2 = m.insert(entry.0@, entry.1@);
    assert forall|i: int, j: int| 0 <= i < j < e2.len() implies text_lt(
        #[trigger] e2[i].0@,
        #[trigger] e2[j].0@,
    ) by {
        assert(text_lt(entries[i].0@, entries[j].0@));
    }
    assert forall|i: int| 0 <= i < e2.len() implies m2.contains_key(#[trigger] e2[i].0@) && m2[e2[i].0@]
        == e2[i].1@ by {
        if i != slot {
            if i < slot {
                assert(text_lt(entries[i].0@, entries[slot].0@));
            } else {
                assert(text_lt(entries[slot].0@, entries[i].0@));
            }
            lemma_text_lt_order(entries[i].0@, entries[slot].0@, entries[i].0@);
            lemma_text_lt_order(entries[slot].0@, entries[i].0@, entries[i].0@);
        }
    }
    assert forall|k: Seq<char>| m2.contains_key(k) implies exists|i: int|
        0 <= i < e2.len() && #[trigger] e2[i].0@ == k by {
        if k == entry.0@ {
            assert(e2[slot].0@ == k);
        } else {
            let i = choose|i: int| 0 <= i < entries.len() && #[trigger] entries[i].0@ == k;
            assert(e2[i].0@ == k);
        }
    }
}

proof fn lemma_code_entries_insert(
    entries: Seq<(String, Decimal)>,
    slot: int,
    entry: (String, Decimal),
    m: Map<Seq<char>, (int, nat)>,
)
    requires
        codes_sorted(entries),
        lists_code_map(entries, m),
        0 <= slot <= entries.len(),
        forall|i: int|
            0 <= i < entries.len() ==> (i < slot ==> text_lt(entries[i].0@, entry.0@)) && (i >= slot
                ==> text_lt(entry.0@, entries[i].0@)),
    ensures
        !m.contains_key(entry.0@),
        codes_sorted(entries.insert(slot, entry)),
        lists_code_map(entries.insert(slot, entry), m.insert(entry.0@, entry.1@)),
{
    let e2 = entries.insert(slot, entry);
    let m2 = m.insert(entry.0@, entry.1@);
    if m.contains_key(entry.0@) {
        let i = choose|i: int| 0 <= i < entries.len() && #[trigger] entries[i].0@ == entry.0@;
        lemma_text_lt_order(entry.0@, entry.0@, entry.0@);
    }
    assert forall|i: int, j: int| 0 <= i < j < e2.len() implies text_lt(
        #[trigger] e2[i].0@,
        #[trigger] e2[j].0@,
    ) by {
        if j < slot {
            assert(text_lt(entries[i].0@, entries[j].0@));
        } else if j == slot {
            assert(text_lt(entries[i].0@, entry.0@));
        } else if i > slot {
            assert(text_lt(entries[i - 1].0@, entries[j - 1].0@));
        } else if i == slot {
            assert(text_lt(entry.0@, entries[j - 1].0@));
        } else {
            assert(text_lt(entries[i].0@, entry.0@));
            assert(text_lt(entry.0@, entries[j - 1].0@));
            lemma_text_lt_order(entries[i].0@, entry.0@, entries[j - 1].0@);
        }
    }
    assert forall|i: int| 0 <= i < e2.len() implies m2.contains_key(#[trigger] e2[i].0@) && m2[e2[i].0@]
        == e2[i].1@ by {
        if i != slot {
            let old_i = if i < slot {
                i
            } else {
                i - 1
            };
            assert(e2[i] == entries[old_i]);
            lemma_text_lt_order(entries[old_i].0@, entry.0@, entries[old_i].0@);
            lemma_text_lt_order(entry.0@, entries[old_i].0@, entries[old_i].0@);
        }
    }
    assert forall|k: Seq<char>| m2.contains_key(k) implies exists|i: int|
        0 <= i < e2.len() && #[trigger] e2[i].0@ == k by {
        if k == entry.0@ {
            assert(e2[slot].0@ == k);
        } else {
            let i = choose|i: int| 0 <= i < entries.len() && #[trigger] entries[i].0@ == k;
            if i < slot {
                assert(e2[i].0@ == k);
            } else {
                assert(e2[i + 1].0@ == k);
            }
        }
    }
}

/// A movement of `sign × amount` in a currency.
pub type Posting = (Seq<char>, (int, nat), (int, nat));

/// Adds `sign × amount` to the balance of the currency (zero when it has none yet), with
/// `rust_decimal`; `None` where that overflows.
pub open spec fn apply_posting(m: Map<Seq<char>, (int, nat)>, p: Posting) -> Option<
    Map<Seq<char>, (int, nat)>,
> {
    let previous = if m.contains_key(p.0) {
        m[p.0]
    } else {
        (0int, 0nat)
    };
    match decimal_product(p.1, p.2) {
        None => None,
        Some(q) => match decimal_sum(previous, q) {
            None => None,
            Some(v) => Some(m.insert(p.0, v)),
        },
    }
}

pub open spec fn apply_postings(m: Map<Seq<char>, (int, nat)>, ps: Seq<Posting>) -> Option<
    Map<Seq<char>, (int, nat)>,
>
    decreases ps.len(),
{
    if ps.len() == 0 {
        Some(m)
    } else {
        match apply_postings(m, ps.drop_last()) {
            None => None,
            Some(m1) => apply_posting(m1, ps.last()),
        }
    }
}

pub open spec fn fee_posting(f: Money) -> Posting {
    (f.currency@, (-1int, 0nat), f.amount@)
}

/// How an event moves cash: a deposit adds and a withdrawal takes its amount; a buy takes and
/// a sell adds its gross amount, and each fee is taken; an exchange takes the sold and adds the
/// bought amount; a dividend adds its net amount when its withholding tax is valid. `None`
/// where the gross amount of a trade overflows.
pub open spec fn event_postings(e: PortfolioEvent) -> Option<Seq<Posting>> {
    match e {
        PortfolioEvent::CashMovement(v) => Some(
            seq![(v.amount.currency@, match v.kind {
                CashMovementKind::Deposit => (1int, 0nat),
                CashMovementKind::Withdrawal => (-1int, 0nat),
            }, v.amount.amount@)],
        ),
        PortfolioEvent::Trade(t) => match spec_gross_amount(t) {
            None => None,
            Some(g) => Some(
                seq![(t.unit_price.currency@, match t.side {
                    TradeSide::Buy => (-1int, 0nat),
                    TradeSide::Sell => (1int, 0nat),
                }, g)] + t.fees@.map_values(|f: Money| fee_posting(f)),
            ),
        },
        PortfolioEvent::CurrencyExchange(v) => Some(
            seq![
                (v.sold.currency@, (-1int, 0nat), v.sold.amount@),
                (v.bought.currency@, (1int, 0nat), v.bought.amount@),
            ],
        ),
        PortfolioEvent::Dividend(v) => match spec_dividend_net(v) {
            Some(n) => Some(seq![(v.gross.currency@, (1int, 0nat), n)]),
            None => Some(seq![]),
        },
    }
}

/// The cash balance of each currency after the events; `None` where `rust_decimal` overflows.
pub open spec fn cash_totals(events: Seq<PortfolioEvent>) -> Option<Map<Seq<char>, (int, nat)>>
    decreases events.len(),
{
    if events.len() == 0 {
        Some(Map::empty())
    } else {
        match cash_totals(events.drop_last()) {
            None => None,
            Some(m) => match event_postings(events.last()) {
                None => None,
                Some(ps) => apply_postings(m, ps),
            },
        }
    }
}

/// Adds `sign × money` to the balances; false, and nothing changed, where that overflows.
#[verifier::spinoff_prover]
fn add_money(entries: &mut Vec<(String, Decimal)>, money: &Money, sign: Decimal) -> (ok: bool)
    requires
        codes_sorted(old(entries)@),
    ensures
        codes_sorted(final(entries)@),
        forall|m: Map<Seq<char>, (int, nat)>|
            lists_code_map(old(entries)@, m) ==> match apply_posting(
                m,
                (money.currency@, sign@, money.amount@),
            ) {
                None => !ok,
                Some(m2) => ok && lists_code_map(final(entries)@, m2),
            },
{
    let signed = match checked_mul(&sign, &money.amount) {
        Some(q) => q,
        None => return false,
    };
    let (slot, found) = find_code(entries, money.currency.code());
    if found {
        let total = match checked_add(&entries[slot].1, &signed) {
            Some(v) => v,
            None => return false,
        };
        let key = entries[slot].0.clone();
        proof {
            assert forall|m: Map<Seq<char>, (int, nat)>| lists_code_map(old(entries)@, m) implies m[money.currency@]
                == old(entries)@[slot as int].1@ by {}
            assert forall|m: Map<Seq<char>, (int, nat)>| lists_code_map(old(entries)@, m) implies lists_code_map(
                old(entries)@.update(slot as int, (key, total)),
                m.insert(key@, total@),
            ) by {
                lemma_code_entries_update(old(entries)@, slot as int, (key, total), m);
            }
        }
        proof {
            let e2 = old(entries)@.update(slot as int, (key, total));
            assert forall|i: int, j: int| 0 <= i < j < e2.len() implies text_lt(
                #[trigger] e2[i].0@,
                #[trigger] e2[j].0@,
            ) by {
                assert(old(entries)@[i].0@ == e2[i].0@);
                assert(old(entries)@[j].0@ == e2[j].0@);
            }
        }
        entries.set(slot, (key, total));
    } else {
        let zero = Decimal::zero();
        let total = match checked_add(&zero, &signed) {
            Some(v) => v,
            None => {
                proof {
                    assert forall|m: Map<Seq<char>, (int, nat)>| lists_code_map(old(entries)@, m) implies !m.contains_key(
                        money.currency@,
                    ) by {
                        if m.contains_key(money.currency@) {
                            let i = choose|i: int|
                                0 <= i < old(entries)@.len() && #[trigger] old(entries)@[i].0@
                                    == money.currency@;
                            lemma_text_lt_order(money.currency@, money.currency@, money.currency@);
                        }
                    }
                }
                return false;
            },
        };
        let key = String::from_str(money.currency.code());
        proof {
            assert forall|m: Map<Seq<char>, (int, nat)>| lists_code_map(old(entries)@, m) implies !m.contains_key(
                money.currency@,
            ) && lists_code_map(
                old(entries)@.insert(slot as int, (key, total)),
                m.insert(key@, total@),
            ) by {
                lemma_code_entries_insert(old(entries)@, slot as int, (key, total), m);
            }
        }
        proof {
            let e0 = old(entries)@;
            let e2 = e0.insert(slot as int, (key, total));
            assert forall|i: int, j: int| 0 <= i < j < e2.len() implies text_lt(
                #[trigger] e2[i].0@,
                #[trigger] e2[j].0@,
            ) by {
                if j < slot {
                    assert(e2[i] == e0[i] && e2[j] == e0[j]);
                } else if i > slot {
                    assert(e2[i] == e0[i - 1] && e2[j] == e0[j - 1]);
                } else if i == slot {
                    assert(e2[j] == e0[j - 1]);
                } else if j == slot {
                    assert(e2[i] == e0[i]);
                } else {
                    assert(e2[i] == e0[i] && e2[j] == e0[j - 1]);
                    lemma_text_lt_order(e0[i].0@, key@, e0[j - 1].0@);
                }
            }
        }
        entries.insert(slot, (key, total));
    }
    true
}


proof fn lemma_apply_postings_prefix(m: Map<Seq<char>, (int, nat)>, ps: Seq<Posting>, i: int)
    requires
        0 <= i <= ps.len(),
        apply_postings(m, ps.take(i)) is None,
    ensures
        apply_postings(m, ps) is None,
    decreases ps.len() - i,
{
    if i == ps.len() {
        assert(ps.take(i) =~= ps);
    } else {
        assert(ps.take(i + 1).drop_last() =~= ps.take(i));
        lemma_apply_postings_prefix(m, ps, i + 1);
    }
}

proof fn lemma_cash_totals_prefix(events: Seq<PortfolioEvent>, i: int)
    requires
        0 <= i <= events.len(),
        cash_totals(events.take(i)) is None,
    ensures
        cash_totals(events) is None,
    decreases events.len() - i,
{
    if i == events.len() {
        assert(events.take(i) =~= events);
    } else {
        assert(events.take(i + 1).drop_last() =~= events.take(i));
        lemma_cash_totals_prefix(events, i + 1);
    }
}

/// Applies the postings of one event to the balances; false where `rust_decimal` overflows.
fn apply_event(entries: &mut Vec<(String, Decimal)>, event: &PortfolioEvent) -> (ok: bool)
    requires
        codes_sorted(old(entries)@),
    ensures
        codes_sorted(final(entries)@),
        forall|m: Map<Seq<char>, (int, nat)>|
            lists_code_map(old(entries)@, m) ==> match event_postings(*event) {
                None => !ok,
                Some(ps) => match apply_postings(m, ps) {
                    None => !ok,
                    Some(m2) => ok && lists_code_map(final(entries)@, m2),
                },
            },
{
    match event {
        PortfolioEvent::CashMovement(v) => {
            let sign = match v.kind {
                CashMovementKind::Deposit => Decimal::one(),
                CashMovementKind::Withdrawal => Decimal::minus_one(),
            };
            let ghost ps = event_postings(*event)->0;
            proof {
                assert forall|m: Map<Seq<char>, (int, nat)>| #[trigger] apply_postings(m, ps) == apply_posting(m, ps[0]) by {
                    reveal_with_fuel(apply_postings, 2);
                    assert(ps.drop_last().len() == 0);
                }
            }
            add_money(entries, &v.amount, sign)
        },
        PortfolioEvent::CurrencyExchange(v) => {
            let ghost ps = event_postings(*event)->0;
            let ghost before = entries@;
            proof {
                assert forall|m: Map<Seq<char>, (int, nat)>| #[trigger] apply_postings(m, ps) == match apply_posting(m, ps[0]) {
                    None => None,
                    Some(m1) => apply_posting(m1, ps[1]),
                } by {
                    reveal_with_fuel(apply_postings, 3);
                    assert(ps.drop_last().drop_last().len() == 0);
                    assert(ps.drop_last().last() == ps[0]);
                }
            }
            if !add_money(entries, &v.sold, Decimal::minus_one()) {
                return false;
            }
            let ghost middle = entries@;
            let ok = add_money(entries, &v.bought, Decimal::one());
            proof {
                assert forall|m: Map<Seq<char>, (int, nat)>| lists_code_map(before, m) implies match apply_postings(m, ps) {
                    None => !ok,
                    Some(m2) => ok && lists_code_map(entries@, m2),
                } by {
                    let m1 = apply_posting(m, ps[0])->0;
                    assert(lists_code_map(middle, m1));
                }
            }
            ok
        },
        PortfolioEvent::Dividend(v) => {
            match v.net() {
                Ok(net) => {
                    let ghost ps = event_postings(*event)->0;
                    proof {
                        assert forall|m: Map<Seq<char>, (int, nat)>| #[trigger] apply_postings(m, ps) == apply_posting(m, ps[0]) by {
                            reveal_with_fuel(apply_postings, 2);
                            assert(ps.drop_last().len() == 0);
                        }
                    }
                    add_money(entries, &net, Decimal::one())
                },
                Err(_) => {
                    proof {
                        let ps = event_postings(*event)->0;
                        assert(ps.len() == 0);
                    }
                    true
                },
            }
        },
        PortfolioEvent::Trade(t) => {
            let gross = match t.checked_gross_amount() {
                Some(g) => g,
                None => return false,
            };
            let sign = match t.side {
                TradeSide::Buy => Decimal::minus_one(),
                TradeSide::Sell => Decimal::one(),
            };
            let ghost ps = event_postings(*event)->0;
            let ghost before = entries@;
            proof {
                assert forall|m: Map<Seq<char>, (int, nat)>| #[trigger] apply_postings(m, ps.take(1)) == apply_posting(m, ps[0]) by {
                    reveal_with_fuel(apply_postings, 2);
                    assert(ps.take(1).drop_last().len() == 0);
                }
            }
            if !add_money(entries, &gross, sign) {
                proof {
                    assert forall|m: Map<Seq<char>, (int, nat)>| lists_code_map(before, m) implies apply_postings(m, ps) is None by {
                        lemma_apply_postings_prefix(m, ps, 1);
                    }
                }
                return false;
            }
            let nfees = t.fees.len();
            for k in 0..nfees
                invariant
                    nfees == t.fees@.len(),
                    ps == event_postings(*event)->0,
                    ps.len() == nfees + 1,
                    before == old(entries)@,
                    forall|j: int| 0 <= j < nfees ==> #[trigger] ps[j + 1] == fee_posting(t.fees@[j]),
                    codes_sorted(entries@),
                    forall|m: Map<Seq<char>, (int, nat)>|
                        lists_code_map(before, m) ==> apply_postings(m, ps.take(k + 1)) is Some
                            && lists_code_map(entries@, apply_postings(m, ps.take(k + 1))->0),
            {
                let ghost current = entries@;
                let fee = &t.fees[k];
                let minus = Decimal::minus_one();
                proof {
                    assert(ps[k + 1] == fee_posting(t.fees@[k as int]));
                    assert forall|m: Map<Seq<char>, (int, nat)>| #[trigger] apply_postings(m, ps.take(k + 2)) == match apply_postings(m, ps.take(k + 1)) {
                        None => None,
                        Some(m1) => apply_posting(m1, ps[k + 1]),
                    } by {
                        assert(ps.take(k + 2).drop_last() =~= ps.take(k + 1));
                    }
                }
                if !add_money(entries, fee, minus) {
                    proof {
                        assert forall|m: Map<Seq<char>, (int, nat)>| lists_code_map(before, m) implies apply_postings(m, ps) is None by {
                            let m1 = apply_postings(m, ps.take(k + 1))->0;
                            assert(lists_code_map(current, m1));
                            assert(apply_posting(m1, (fee.currency@, minus@, fee.amount@)) is None);
                            assert(apply_postings(m, ps.take(k + 2)) is None);
                            lemma_apply_postings_prefix(m, ps, k + 2);
                        }
                    }
                    return false;
                }
            }
            proof {
                assert(ps.take(nfees + 1) =~= ps);
            }
            true
        },
    }
}

impl Portfolio {
    /// The cash balance of every currency the events move; `None` where `rust_decimal`
    /// overflows.
    pub fn checked_cash_balances(&self) -> (r: Option<Vec<(String, Decimal)>>)
        ensures
            match r {
                None => cash_totals(self.event_log()) is None,
                Some(b) => cash_totals(self.event_log()) is Some && codes_sorted(b@) && lists_code_map(
                    b@,
                    cash_totals(self.event_log())->0,
                ),
            },
    {
        let mut entries: Vec<(String, Decimal)> = Vec::new();
        let n = self.events.len();
        for idx in 0..n
            invariant
                n == self.events@.len(),
                cash_totals(self.events@.take(idx as int)) is Some,
                codes_sorted(entries@),
                lists_code_map(entries@, cash_totals(self.events@.take(idx as int))->0),
        {
            proof {
                assert(self.events@.take(idx + 1).drop_last() =~= self.events@.take(idx as int));
                assert(self.events@.take(idx + 1).last() == self.events@[idx as int]);
            }
            if !apply_event(&mut entries, &self.events[idx]) {
                proof {
                    lemma_cash_totals_prefix(self.events@, idx + 1);
                }
                return None;
            }
        }
        proof {
            assert(self.events@.take(n as int) =~= self.events@);
        }
        Some(entries)
    }

    /// The cash balance of every currency the events move, listed by currency code.
    pub fn cash_balances(&self) -> (r: Vec<(String, Decimal)>)
        requires
            cash_totals(self.event_log()) is Some,
        ensures
            codes_sorted(r@),
            lists_code_map(r@, cash_totals(self.event_log())->0),
    {
        self.checked_cash_balances().unwrap()
    }
}


/// Whether some entry has the key.
pub open spec fn lists_key<V>(entries: Seq<(String, V)>, k: Seq<char>) -> bool {
    exists|i: int| 0 <= i < entries.len() && #[trigger] entries[i].0@ == k
}

/// Balances as plain pairs of currency code and amount.
pub open spec fn balance_pairs(entries: Seq<(String, Decimal)>) -> Seq<(Seq<char>, (int, nat))> {
    entries.map_values(|e: (String, Decimal)| (e.0@, e.1@))
}

pub open spec fn pairs_sorted(l: Seq<(Seq<char>, (int, nat))>) -> bool {
    forall|i: int, j: int| 0 <= i < j < l.len() ==> text_lt(#[trigger] l[i].0, #[trigger] l[j].0)
}

pub open spec fn pairs_list_map(l: Seq<(Seq<char>, (int, nat))>, m: Map<Seq<char>, (int, nat)>) -> bool {
    &&& forall|i: int| 0 <= i < l.len() ==> m.contains_key(#[trigger] l[i].0) && m[l[i].0] == l[i].1
    &&& forall|k: Seq<char>| m.contains_key(k) ==> exists|i: int| 0 <= i < l.len() && #[trigger] l[i].0 == k
}

/// The balances of a map, listed by currency code.
pub open spec fn sorted_balances(m: Map<Seq<char>, (int, nat)>) -> Seq<(Seq<char>, (int, nat))> {
    choose|l: Seq<(Seq<char>, (int, nat))>| pairs_sorted(l) && pairs_list_map(l, m)
}

proof fn lemma_balance_pairs(entries: Seq<(String, Decimal)>, m: Map<Seq<char>, (int, nat)>)
    requires
        codes_sorted(entries),
        lists_code_map(entries, m),
    ensures
        pairs_sorted(balance_pairs(entries)),
        pairs_list_map(balance_pairs(entries), m),
{
    let l = balance_pairs(entries);
    assert forall|i: int, j: int| 0 <= i < j < l.len() implies text_lt(#[trigger] l[i].0, #[trigger] l[j].0) by {
        assert(text_lt(entries[i].0@, entries[j].0@));
    }
    assert forall|i: int| 0 <= i < l.len() implies m.contains_key(#[trigger] l[i].0) && m[l[i].0] == l[i].1 by {
        assert(m.contains_key(entries[i].0@));
    }
    assert forall|k: Seq<char>| m.contains_key(k) implies exists|i: int| 0 <= i < l.len() && #[trigger] l[i].0 == k by {
        let i = choose|i: int| 0 <= i < entries.len() && #[trigger] entries[i].0@ == k;
        assert(l[i].0 == k);
    }
}

proof fn lemma_sorted_pairs_agree(
    a: Seq<(Seq<char>, (int, nat))>,
    b: Seq<(Seq<char>, (int, nat))>,
    m: Map<Seq<char>, (int, nat)>,
    i: int,
)
    requires
        pairs_sorted(a),
        pairs_sorted(b),
        pairs_list_map(a, m),
        pairs_list_map(b, m),
        0 <= i,
    ensures
        forall|j: int| 0 <= j < i && j < a.len() && j < b.len() ==> #[trigger] a[j] == b[j],
    decreases i,
{
    if i > 0 {
        lemma_sorted_pairs_agree(a, b, m, i - 1);
        let j = i - 1;
        if j < a.len() && j < b.len() && a[j].0 != b[j].0 {
            let x = a[j].0;
            let y = b[j].0;
            lemma_text_lt_order(x, y, x);
            if text_lt(x, y) {
                let k = choose|k: int| 0 <= k < b.len() && #[trigger] b[k].0 == x;
                if k < j {
                    assert(a[k] == b[k]);
                    assert(text_lt(a[k].0, a[j].0));
                    lemma_text_lt_order(x, x, x);
                } else if k > j {
                    assert(text_lt(b[j].0, b[k].0));
                }
            } else {
                let k = choose|k: int| 0 <= k < a.len() && #[trigger] a[k].0 == y;
                if k < j {
                    assert(a[k] == b[k]);
                    assert(text_lt(b[k].0, b[j].0));
                    lemma_text_lt_order(y, y, y);
                } else if k > j {
                    assert(text_lt(a[j].0, a[k].0));
                }
            }
        }
    }
}

/// Two lists that both give the balances of a map by currency code are the same list.
proof fn lemma_sorted_pairs_unique(
    a: Seq<(Seq<char>, (int, nat))>,
    b: Seq<(Seq<char>, (int, nat))>,
    m: Map<Seq<char>, (int, nat)>,
)
    requires
        pairs_sorted(a),
        pairs_sorted(b),
        pairs_list_map(a, m),
        pairs_list_map(b, m),
    ensures
        a == b,
{
    let n = if a.len() >= b.len() { a.len() as int } else { b.len() as int };
    lemma_sorted_pairs_agree(a, b, m, n);
    if a.len() > b.len() {
        let x = a[b.len() as int].0;
        let k = choose|k: int| 0 <= k < b.len() && #[trigger] b[k].0 == x;
        assert(a[k] == b[k]);
        assert(text_lt(a[k].0, a[b.len() as int].0));
        lemma_text_lt_order(x, x, x);
    } else if b.len() > a.len() {
        let y = b[a.len() as int].0;
        let k = choose|k: int| 0 <= k < a.len() && #[trigger] a[k].0 == y;
        assert(a[k] == b[k]);
        assert(text_lt(b[k].0, b[a.len() as int].0));
        lemma_text_lt_order(y, y, y);
    }
    assert(a =~= b);
}

/// The rate an event records for converting into euros or, for an exchange, its own rate.
pub open spec fn recorded_rate(e: PortfolioEvent) -> Option<ExchangeRate> {
    match e {
        PortfolioEvent::Trade(t) => if t.settlement_rate_to_eur is Some {
            t.settlement_rate_to_eur
        } else {
            t.tax_rate_to_eur
        },
        PortfolioEvent::CurrencyExchange(x) => Some(x.rate),
        PortfolioEvent::Dividend(d) => d.tax_rate_to_eur,
        PortfolioEvent::CashMovement(_) => None,
    }
}

/// For each currency, the latest recorded rate into `base` (by reference date, the later event
/// winning a tie).
pub open spec fn valuation_rates(events: Seq<PortfolioEvent>, base: Seq<char>) -> Map<
    Seq<char>,
    ExchangeRate,
>
    decreases events.len(),
{
    if events.len() == 0 {
        Map::empty()
    } else {
        let m = valuation_rates(events.drop_last(), base);
        match recorded_rate(events.last()) {
            Some(r) => if r.quote@ == base && (!m.contains_key(r.base@) || m[r.base@].reference_date.days_from_ce
                <= r.reference_date.days_from_ce) {
                m.insert(r.base@, r)
            } else {
                m
            },
            None => m,
        }
    }
}

/// The sum of the balances converted into `base`, in list order; the code of the first balance
/// without a rate as the error; `None` where `rust_decimal` overflows.
pub open spec fn valuation(
    l: Seq<(Seq<char>, (int, nat))>,
    rates: Map<Seq<char>, ExchangeRate>,
    base: Seq<char>,
) -> Option<Result<(int, nat), Seq<char>>>
    decreases l.len(),
{
    if l.len() == 0 {
        Some(Ok((0int, 0nat)))
    } else {
        match valuation(l.drop_last(), rates, base) {
            None => None,
            Some(Err(c)) => Some(Err(c)),
            Some(Ok(t)) => {
                let (c, a) = l.last();
                if c == base {
                    match decimal_sum(t, a) {
                        Some(v) => Some(Ok(v)),
                        None => None,
                    }
                } else if !rates.contains_key(c) {
                    Some(Err(c))
                } else {
                    match decimal_product(a, rates[c].rate@) {
                        None => None,
                        Some(p) => match decimal_sum(t, p) {
                            Some(v) => Some(Ok(v)),
                            None => None,
                        },
                    }
                }
            },
        }
    }
}

/// The value of the cash in the base currency; `None` where `rust_decimal` overflows.
pub open spec fn spec_cash_value(p: Portfolio) -> Option<Result<(int, nat), Seq<char>>> {
    match cash_totals(p.event_log()) {
        None => None,
        Some(m) => valuation(sorted_balances(m), valuation_rates(p.event_log(), p.base()), p.base()),
    }
}

pub open spec fn cash_value_matches(
    r: Result<Money, PortfolioError>,
    s: Result<(int, nat), Seq<char>>,
    base: Seq<char>,
) -> bool {
    match (r, s) {
        (Ok(m), Ok(v)) => m.amount@ == v && m.currency@ == base,
        (Err(PortfolioError::MissingValuationExchangeRate(c)), Err(d)) => c@ == d,
        _ => false,
    }
}

/// One more event: the rates before it, updated by the rate it records.
proof fn lemma_valuation_rates_step(events: Seq<PortfolioEvent>, idx: int, base: Seq<char>)
    requires
        0 <= idx < events.len(),
    ensures
        ({
            let m = valuation_rates(events.take(idx), base);
            valuation_rates(events.take(idx + 1), base) == match recorded_rate(events[idx]) {
                Some(r) => if r.quote@ == base && (!m.contains_key(r.base@)
                    || m[r.base@].reference_date.days_from_ce <= r.reference_date.days_from_ce) {
                    m.insert(r.base@, r)
                } else {
                    m
                },
                None => m,
            }
        }),
{
    assert(events.take(idx + 1).drop_last() =~= events.take(idx));
    assert(events.take(idx + 1).last() == events[idx]);
}

/// The rate an event records, as `recorded_rate` gives it.
fn event_rate(e: &PortfolioEvent) -> (r: Option<&ExchangeRate>)
    ensures
        match r {
            Some(x) => recorded_rate(*e) == Some(*x),
            None => recorded_rate(*e) is None,
        },
{
    match e {
        PortfolioEvent::Trade(trade) => match &trade.settlement_rate_to_eur {
            Some(r) => Some(r),
            None => match &trade.tax_rate_to_eur {
                Some(r) => Some(r),
                None => None,
            },
        },
        PortfolioEvent::CurrencyExchange(exchange) => Some(&exchange.rate),
        PortfolioEvent::Dividend(dividend) => match &dividend.tax_rate_to_eur {
            Some(r) => Some(r),
            None => None,
        },
        PortfolioEvent::CashMovement(_) => None,
    }
}

/// The sources, the rates they point to, and the map of rates agree.
pub open spec fn sources_match(
    sources: Seq<(String, usize)>,
    events: Seq<PortfolioEvent>,
    m: Map<Seq<char>, ExchangeRate>,
) -> bool {
    &&& codes_sorted(sources)
    &&& forall|i: int|
        0 <= i < sources.len() ==> #[trigger] sources[i].1 < events.len() && recorded_rate(
            events[sources[i].1 as int],
        ) is Some && m.contains_key(sources[i].0@) && m[sources[i].0@] == recorded_rate(
            events[sources[i].1 as int],
        )->0
    &&& forall|k: Seq<char>| #[trigger] m.contains_key(k) ==> lists_key(sources, k)
}

impl Portfolio {
    /// Where the latest rate of each currency into the base currency is recorded: the index of
    /// the event that recorded it.
    fn rate_sources(&self) -> (r: Vec<(String, usize)>)
        ensures
            sources_match(r@, self.event_log(), valuation_rates(self.event_log(), self.base())),
    {
        let mut sources: Vec<(String, usize)> = Vec::new();
        let n = self.events.len();
        proof {
            assert(self.events@.take(0).len() == 0);
        }
        for idx in 0..n
            invariant
                n == self.events@.len(),
                forall|i: int| 0 <= i < sources@.len() ==> #[trigger] sources@[i].1 < idx,
                sources_match(
                    sources@,
                    self.events@,
                    valuation_rates(self.events@.take(idx as int), self.base_currency@),
                ),
        {
            let ghost before = sources@;
            let ghost m = valuation_rates(self.events@.take(idx as int), self.base_currency@);
            proof {
                lemma_valuation_rates_step(self.events@, idx as int, self.base_currency@);
            }
            let rate = event_rate(&self.events[idx]);
            if let Some(rate) = rate {
                if rate.quote.same(&self.base_currency) {
                    let (slot, found) = find_code(&sources, rate.base.code());
                    if found {
                        let stored = sources[slot].1;
                        let stored_rate = event_rate(&self.events[stored]);
                        let newer = match stored_rate {
                            Some(s) => s.reference_date.days_from_ce <= rate.reference_date.days_from_ce,
                            None => true,
                        };
                        if newer {
                            let key = sources[slot].0.clone();
                            sources.set(slot, (key, idx));
                            proof {
                                let m2 = m.insert(rate.base@, *rate);
                                assert forall|i: int| 0 <= i < sources@.len() implies #[trigger] sources@[i].1
                                    < self.events@.len() && recorded_rate(self.events@[sources@[i].1 as int]) is Some
                                    && m2.contains_key(sources@[i].0@) && m2[sources@[i].0@] == recorded_rate(
                                    self.events@[sources@[i].1 as int],
                                )->0 by {
                                    if i != slot {
                                        assert(sources@[i] == before[i]);
                                        if i < slot {
                                            assert(text_lt(before[i].0@, before[slot as int].0@));
                                        } else {
                                            assert(text_lt(before[slot as int].0@, before[i].0@));
                                        }
                                        lemma_text_lt_order(before[i].0@, before[slot as int].0@, before[i].0@);
                                        lemma_text_lt_order(before[slot as int].0@, before[i].0@, before[i].0@);
                                    }
                                }
                                assert forall|k: Seq<char>| #[trigger] m2.contains_key(k) implies lists_key(sources@, k) by {
                                    if k != rate.base@ {
                                        assert(m.contains_key(k));
                                        let i = choose|i: int| 0 <= i < before.len() && #[trigger] before[i].0@ == k;
                                        assert(sources@[i].0@ == k);
                                    } else {
                                        assert(sources@[slot as int].0@ == k);
                                    }
                                }
                                assert forall|i: int, j: int| 0 <= i < j < sources@.len() implies text_lt(
                                    #[trigger] sources@[i].0@,
                                    #[trigger] sources@[j].0@,
                                ) by {
                                    assert(text_lt(before[i].0@, before[j].0@));
                                }
                            }
                        }
                    } else {
                        let key = String::from_str(rate.base.code());
                        proof {
                            if m.contains_key(rate.base@) {
                                let i = choose|i: int| 0 <= i < before.len() && #[trigger] before[i].0@ == rate.base@;
                                lemma_text_lt_order(rate.base@, rate.base@, rate.base@);
                            }
                        }
                        sources.insert(slot, (key, idx));
                        proof {
                            let m2 = m.insert(rate.base@, *rate);
                            assert forall|i: int, j: int| 0 <= i < j < sources@.len() implies text_lt(
                                #[trigger] sources@[i].0@,
                                #[trigger] sources@[j].0@,
                            ) by {
                                if j < slot {
                                    assert(text_lt(before[i].0@, before[j].0@));
                                } else if j == slot {
                                    assert(text_lt(before[i].0@, key@));
                                } else if i > slot {
                                    assert(text_lt(before[i - 1].0@, before[j - 1].0@));
                                } else if i == slot {
                                    assert(text_lt(key@, before[j - 1].0@));
                                } else {
                                    lemma_text_lt_order(before[i].0@, key@, before[j - 1].0@);
                                }
                            }
                            assert forall|i: int| 0 <= i < sources@.len() implies #[trigger] sources@[i].1
                                < self.events@.len() && recorded_rate(self.events@[sources@[i].1 as int]) is Some
                                && m2.contains_key(sources@[i].0@) && m2[sources@[i].0@] == recorded_rate(
                                self.events@[sources@[i].1 as int],
                            )->0 by {
                                if i != slot {
                                    let oi = if i < slot { i } else { i - 1 };
                                    assert(sources@[i] == before[oi]);
                                    lemma_text_lt_order(before[oi].0@, key@, before[oi].0@);
                                    lemma_text_lt_order(key@, before[oi].0@, before[oi].0@);
                                }
                            }
                            assert forall|k: Seq<char>| #[trigger] m2.contains_key(k) implies lists_key(sources@, k) by {
                                if k != rate.base@ {
                                    assert(m.contains_key(k));
                                    let i = choose|i: int| 0 <= i < before.len() && #[trigger] before[i].0@ == k;
                                    if i < slot {
                                        assert(sources@[i].0@ == k);
                                    } else {
                                        assert(sources@[i + 1].0@ == k);
                                    }
                                } else {
                                    assert(sources@[slot as int].0@ == k);
                                }
                            }
                        }
                    }
                }
            }
        }
        proof {
            assert(self.events@.take(n as int) =~= self.events@);
        }
        sources
    }
}

/// Once the valuation of a prefix has failed or overflowed, so has that of the whole list.
proof fn lemma_valuation_sticks(
    l: Seq<(Seq<char>, (int, nat))>,
    i: int,
    rates: Map<Seq<char>, ExchangeRate>,
    base: Seq<char>,
)
    requires
        0 <= i <= l.len(),
        !(valuation(l.take(i), rates, base) matches Some(Ok(_))),
    ensures
        valuation(l, rates, base) == valuation(l.take(i), rates, base),
    decreases l.len() - i,
{
    if i < l.len() {
        assert(l.take(i + 1).drop_last() =~= l.take(i));
        lemma_valuation_sticks(l, i + 1, rates, base);
    } else {
        assert(l.take(i) =~= l);
    }
}

impl Portfolio {
    /// The cash of the portfolio valued in its base currency, each foreign balance at the latest
    /// rate recorded into the base currency; `None` where `rust_decimal` overflows.
    pub fn checked_cash_value_in_base(&self) -> (r: Option<Result<Money, PortfolioError>>)
        ensures
            match (r, spec_cash_value(*self)) {
                (None, None) => true,
                (Some(x), Some(s)) => cash_value_matches(x, s, self.base()),
                _ => false,
            },
    {
        let sources = self.rate_sources();
        let balances = match self.checked_cash_balances() {
            None => return None,
            Some(b) => b,
        };
        let ghost m = cash_totals(self.event_log())->0;
        let ghost rates = valuation_rates(self.event_log(), self.base());
        let ghost base = self.base();
        let ghost l = balance_pairs(balances@);
        proof {
            lemma_balance_pairs(balances@, m);
            lemma_sorted_pairs_unique(l, sorted_balances(m), m);
            assert(l.take(0) =~= Seq::<(Seq<char>, (int, nat))>::empty());
        }
        let mut total = Decimal::zero();
        let n = balances.len();
        for i in 0..n
            invariant
                n == balances@.len(),
                l == balance_pairs(balances@),
                l == sorted_balances(m),
                cash_totals(self.event_log()) is Some,
                m == cash_totals(self.event_log())->0,
                rates == valuation_rates(self.event_log(), self.base()),
                base == self.base(),
                base == self.base_currency@,
                sources_match(sources@, self.event_log(), rates),
                self.event_log() == self.events@,
                valuation(l.take(i as int), rates, base) == Some(Ok::<(int, nat), Seq<char>>(total@)),
        {
            proof {
                assert(l.take(i + 1).drop_last() =~= l.take(i as int));
                assert(l.take(i + 1).last() == l[i as int]);
                assert(l[i as int] == (balances@[i as int].0@, balances@[i as int].1@));
            }
            let currency: &str = balances[i].0.as_str();
            let amount = &balances[i].1;
            if same_text(currency, self.base_currency.code()) {
                match checked_add(&total, amount) {
                    None => {
                        proof {
                            lemma_valuation_sticks(l, i + 1, rates, base);
                        }
                        return None;
                    },
                    Some(v) => {
                        total = v;
                    },
                }
            } else {
                let (slot, found) = find_code(&sources, currency);
                if !found {
                    proof {
                        if rates.contains_key(currency@) {
                            let j = choose|j: int| 0 <= j < sources@.len() && #[trigger] sources@[j].0@ == currency@;
                            lemma_text_lt_order(currency@, currency@, currency@);
                        }
                        lemma_valuation_sticks(l, i + 1, rates, base);
                    }
                    return Some(Err(PortfolioError::MissingValuationExchangeRate(balances[i].0.clone())));
                }
                let source = sources[slot].1;
                let rate = event_rate(&self.events[source]).unwrap();
                let product = match checked_mul(amount, &rate.rate) {
                    None => {
                        proof {
                            lemma_valuation_sticks(l, i + 1, rates, base);
                        }
                        return None;
                    },
                    Some(p) => p,
                };
                match checked_add(&total, &product) {
                    None => {
                        proof {
                            lemma_valuation_sticks(l, i + 1, rates, base);
                        }
                        return None;
                    },
                    Some(v) => {
                        total = v;
                    },
                }
            }
        }
        proof {
            assert(l.take(n as int) =~= l);
        }
        Some(Ok(Money::new(total, self.base_currency.duplicate())))
    }

    /// The cash of the portfolio valued in its base currency, each foreign balance at the latest
    /// rate recorded into the base currency. Fails with the code of the first currency, by code,
    /// that has a balance and no such rate.
    pub fn cash_value_in_base(&self) -> (r: Result<Money, PortfolioError>)
        requires
            spec_cash_value(*self) is Some,
        ensures
            cash_value_matches(r, spec_cash_value(*self)->0, self.base()),
    {
        self.checked_cash_value_in_base().unwrap()
    }
}

/// A tax lot as plain values: the acquiring trade's id, the instrument, the acquisition time
/// in microseconds, the remaining quantity and the unit cost in euros.
pub type LotValue = (Seq<char>, (bool, Seq<char>), int, (int, nat), (int, nat));

/// A realized lot as plain values: the acquiring and the disposing trade's ids, the
/// instrument, the quantity, the acquisition cost, the disposal proceeds and the gain, in euros.
pub type RealizedValue = (Seq<char>, Seq<char>, (bool, Seq<char>), (int, nat), (int, nat), (int, nat), (int, nat));

impl View for TaxLot {
    type V = LotValue;

    open spec fn view(&self) -> LotValue {
        (
            self.acquisition_trade_id@,
            self.instrument@,
            self.acquired_at.micros as int,
            self.remaining_quantity@,
            self.unit_cost_eur@,
        )
    }
}

impl View for RealizedLot {
    type V = RealizedValue;

    open spec fn view(&self) -> RealizedValue {
        (
            self.acquisition_trade_id@,
            self.disposal_trade_id@,
            self.instrument@,
            self.quantity@,
            self.acquisition_cost_eur@,
            self.disposal_proceeds_eur@,
            self.gain_eur@,
        )
    }
}

pub open spec fn lot_values(lots: Seq<TaxLot>) -> Seq<LotValue> {
    lots.map_values(|l: TaxLot| l@)
}

pub open spec fn realized_values(lots: Seq<RealizedLot>) -> Seq<RealizedValue> {
    lots.map_values(|l: RealizedLot| l@)
}

impl View for FifoTaxProjection {
    type V = (Seq<LotValue>, Seq<RealizedValue>);

    open spec fn view(&self) -> (Seq<LotValue>, Seq<RealizedValue>) {
        (lot_values(self.open_lots@), realized_values(self.realized@))
    }
}

/// The execution time of a trade, in microseconds; zero for the other events.
pub open spec fn trade_time(e: PortfolioEvent) -> int {
    match e {
        PortfolioEvent::Trade(t) => t.executed_at.micros as int,
        _ => 0,
    }
}

/// Where a trade executed at `time` goes in `order`: after every trade of the sorted tail
/// executed at or before it.
pub open spec fn time_slot(order: Seq<int>, events: Seq<PortfolioEvent>, time: int) -> int
    decreases order.len(),
{
    if order.len() == 0 {
        0
    } else if trade_time(events[order.last()]) > time {
        time_slot(order.drop_last(), events, time)
    } else {
        order.len() as int
    }
}

/// The indices of the trades among the first `n` events, by execution time, the earlier
/// recorded first among trades executed at the same time.
pub open spec fn trade_order(events: Seq<PortfolioEvent>, n: int) -> Seq<int>
    decreases n,
{
    if n <= 0 {
        Seq::empty()
    } else {
        let o = trade_order(events, n - 1);
        if events[n - 1] is Trade {
            o.insert(time_slot(o, events, trade_time(events[n - 1])), n - 1)
        } else {
            o
        }
    }
}

proof fn lemma_time_slot_bounds(order: Seq<int>, events: Seq<PortfolioEvent>, time: int)
    ensures
        0 <= time_slot(order, events, time) <= order.len(),
    decreases order.len(),
{
    if order.len() > 0 {
        lemma_time_slot_bounds(order.drop_last(), events, time);
    }
}

proof fn lemma_trade_order_bounds(events: Seq<PortfolioEvent>, n: int)
    requires
        0 <= n <= events.len(),
    ensures
        forall|i: int|
            0 <= i < trade_order(events, n).len() ==> 0 <= #[trigger] trade_order(events, n)[i] < n
                && events[trade_order(events, n)[i]] is Trade,
    decreases n,
{
    if n > 0 {
        lemma_trade_order_bounds(events, n - 1);
        let o = trade_order(events, n - 1);
        if events[n - 1] is Trade {
            lemma_time_slot_bounds(o, events, trade_time(events[n - 1]));
        }
    }
}

/// The execution time of a trade, in microseconds; zero for the other events.
fn event_trade_time(e: &PortfolioEvent) -> (r: i64)
    ensures
        r == trade_time(*e),
{
    match e {
        PortfolioEvent::Trade(t) => t.executed_at.micros,
        _ => 0,
    }
}

pub open spec fn index_values(v: Seq<usize>) -> Seq<int> {
    v.map_values(|x: usize| x as int)
}

impl Portfolio {
    /// The indices of the trades, by execution time, the earlier recorded first among trades
    /// executed at the same time.
    fn trade_indices(&self) -> (r: Vec<usize>)
        ensures
            index_values(r@) == trade_order(self.event_log(), self.event_log().len() as int),
            forall|i: int| 0 <= i < r@.len() ==> #[trigger] r@[i] < self.event_log().len()
                && self.event_log()[r@[i] as int] is Trade,
    {
        let mut order: Vec<usize> = Vec::new();
        let n = self.events.len();
        for idx in 0..n
            invariant
                n == self.events@.len(),
                index_values(order@) == trade_order(self.events@, idx as int),
                forall|i: int| 0 <= i < order@.len() ==> #[trigger] order@[i] < idx,
        {
            if let PortfolioEvent::Trade(trade) = &self.events[idx] {
                let time = trade.executed_at.micros;
                let ghost o = index_values(order@);
                let mut k = order.len();
                proof {
                    assert(o.take(k as int) =~= o);
                }
                while k > 0 && event_trade_time(&self.events[order[k - 1]]) > time
                    invariant
                        k <= order@.len(),
                        o == index_values(order@),
                        n == self.events@.len(),
                        idx < n,
                        o == trade_order(self.events@, idx as int),
                        forall|i: int| 0 <= i < order@.len() ==> #[trigger] order@[i] < idx,
                        time_slot(o, self.events@, time as int) == time_slot(o.take(k as int), self.events@, time as int),
                    decreases k,
                {
                    proof {
                        assert(o.take(k as int).drop_last() =~= o.take(k - 1));
                        assert(o.take(k as int).last() == o[k - 1]);
                    }
                    k = k - 1;
                }
                proof {
                    if k > 0 {
                        assert(o.take(k as int).last() == o[k - 1]);
                    }
                    assert(o.take(0).len() == 0);
                }
                order.insert(k, idx);
                proof {
                    assert(index_values(order@) =~= o.insert(k as int, idx as int));
                }
            }
        }
        proof {
            lemma_trade_order_bounds(self.events@, n as int);
            assert forall|i: int| 0 <= i < order@.len() implies #[trigger] order@[i] < self.event_log().len()
                && self.event_log()[order@[i] as int] is Trade by {
                assert(index_values(order@)[i] == order@[i] as int);
            }
        }
        order
    }
}

/// The first `k` fees of a trade in euros for tax purposes, summed in order; the first
/// refused conversion as the error; `None` where `rust_decimal` overflows.
pub open spec fn tax_fees(t: Trade, k: int) -> Option<Result<(int, nat), PortfolioError>>
    decreases k,
{
    if k <= 0 {
        Some(Ok((0int, 0nat)))
    } else {
        match tax_fees(t, k - 1) {
            Some(Ok(total)) => match spec_money_for_tax(t, money_value(t.fees@[k - 1])) {
                None => None,
                Some(Err(e)) => Some(Err(e)),
                Some(Ok(m)) => match decimal_sum(total, m.0) {
                    None => None,
                    Some(v) => Some(Ok(v)),
                },
            },
            other => other,
        }
    }
}

/// The remaining quantities of the instrument's lots among the first `k`, summed in order;
/// `None` where `rust_decimal` overflows.
pub open spec fn lots_available(lots: Seq<LotValue>, instrument: (bool, Seq<char>), k: int) -> Option<
    (int, nat),
>
    decreases k,
{
    if k <= 0 {
        Some((0int, 0nat))
    } else {
        match lots_available(lots, instrument, k - 1) {
            None => None,
            Some(total) => if lots[k - 1].1 == instrument {
                decimal_sum(total, lots[k - 1].3)
            } else {
                Some(total)
            },
        }
    }
}

/// The lesser of two quantities, the first on a tie.
pub open spec fn lesser(a: (int, nat), b: (int, nat)) -> (int, nat) {
    if units(b) < units(a) {
        b
    } else {
        a
    }
}

/// Disposing of `remaining` against the instrument's lots from the `j`-th on, oldest first:
/// each lot still held gives up the lesser of what it holds and what remains, at its unit
/// cost against the disposal's unit proceeds, until nothing remains. The lots afterwards and
/// the lots realized; `None` where `rust_decimal` overflows.
pub open spec fn dispose(
    lots: Seq<LotValue>,
    j: int,
    remaining: (int, nat),
    instrument: (bool, Seq<char>),
    unit_proceeds: (int, nat),
    disposal_id: Seq<char>,
) -> Option<(Seq<LotValue>, Seq<RealizedValue>)>
    decreases lots.len() - j,
{
    if j < 0 || j >= lots.len() {
        Some((lots, Seq::empty()))
    } else {
        let lot = lots[j];
        if lot.1 != instrument || lot.3.0 == 0 {
            dispose(lots, j + 1, remaining, instrument, unit_proceeds, disposal_id)
        } else if remaining.0 == 0 {
            Some((lots, Seq::empty()))
        } else {
            let matched = lesser(remaining, lot.3);
            match (decimal_product(matched, lot.4), decimal_product(matched, unit_proceeds)) {
                (Some(cost), Some(proceeds)) => match (
                    decimal_difference(proceeds, cost),
                    decimal_difference(lot.3, matched),
                    decimal_difference(remaining, matched),
                ) {
                    (Some(gain), Some(left), Some(rest)) => match dispose(
                        lots.update(j, (lot.0, lot.1, lot.2, left, lot.4)),
                        j + 1,
                        rest,
                        instrument,
                        unit_proceeds,
                        disposal_id,
                    ) {
                        None => None,
                        Some((l, r)) => Some(
                            (l, seq![(lot.0, disposal_id, instrument, matched, cost, proceeds, gain)] + r),
                        ),
                    },
                    _ => None,
                },
                _ => None,
            }
        }
    }
}

/// One trade of the FIFO projection: a buy opens a lot at its gross amount plus fees per
/// unit, in euros; a sell, at its gross amount less fees per unit, disposes of the oldest lots
/// first, and is refused where the lots of its instrument hold less than it sells.
pub open spec fn fifo_step(state: (Seq<LotValue>, Seq<RealizedValue>), t: Trade) -> Option<
    Result<(Seq<LotValue>, Seq<RealizedValue>), PortfolioError>,
> {
    match tax_fees(t, t.fees@.len() as int) {
        None => None,
        Some(Err(e)) => Some(Err(e)),
        Some(Ok(fees)) => match spec_gross_amount_for_tax(t) {
            None => None,
            Some(Err(e)) => Some(Err(e)),
            Some(Ok(gross)) => match t.side {
                TradeSide::Buy => match decimal_sum(gross.0, fees) {
                    None => None,
                    Some(total) => match decimal_quotient(total, t.quantity@) {
                        None => None,
                        Some(unit_cost) => Some(
                            Ok(
                                (
                                    state.0.push(
                                        (
                                            t.id@,
                                            t.instrument@,
                                            t.executed_at.micros as int,
                                            t.quantity@,
                                            unit_cost,
                                        ),
                                    ),
                                    state.1,
                                ),
                            ),
                        ),
                    },
                },
                TradeSide::Sell => match decimal_difference(gross.0, fees) {
                    None => None,
                    Some(net) => match decimal_quotient(net, t.quantity@) {
                        None => None,
                        Some(unit_proceeds) => match lots_available(
                            state.0,
                            t.instrument@,
                            state.0.len() as int,
                        ) {
                            None => None,
                            Some(available) => if units(available) < units(t.quantity@) {
                                Some(Err(PortfolioError::UnsupportedShortDisposal(t.id)))
                            } else {
                                match dispose(
                                    state.0,
                                    0,
                                    t.quantity@,
                                    t.instrument@,
                                    unit_proceeds,
                                    t.id@,
                                ) {
                                    None => None,
                                    Some((lots, realized)) => Some(Ok((lots, state.1 + realized))),
                                }
                            },
                        },
                    },
                },
            },
        },
    }
}

/// The FIFO projection after the first `k` trades of `order`.
pub open spec fn fifo_run(events: Seq<PortfolioEvent>, order: Seq<int>, k: int) -> Option<
    Result<(Seq<LotValue>, Seq<RealizedValue>), PortfolioError>,
>
    decreases k,
{
    if k <= 0 {
        Some(Ok((Seq::empty(), Seq::empty())))
    } else {
        match fifo_run(events, order, k - 1) {
            Some(Ok(state)) => match events[order[k - 1]] {
                PortfolioEvent::Trade(t) => fifo_step(state, t),
                _ => Some(Ok(state)),
            },
            other => other,
        }
    }
}

/// Where a lot of `instrument` goes in a listing by instrument: after every lot of an
/// instrument that does not come after it.
pub open spec fn instrument_slot(listing: Seq<LotValue>, instrument: (bool, Seq<char>)) -> int
    decreases listing.len(),
{
    if listing.len() == 0 {
        0
    } else if instrument_lt(instrument, listing.last().1) {
        instrument_slot(listing.drop_last(), instrument)
    } else {
        listing.len() as int
    }
}

/// The lots still held, by instrument, the older first within an instrument.
pub open spec fn open_lot_listing(lots: Seq<LotValue>) -> Seq<LotValue>
    decreases lots.len(),
{
    if lots.len() == 0 {
        Seq::empty()
    } else {
        let listing = open_lot_listing(lots.drop_last());
        let lot = lots.last();
        if lot.3.0 == 0 {
            listing
        } else {
            listing.insert(instrument_slot(listing, lot.1), lot)
        }
    }
}

/// The FIFO tax projection of the events: the trades by execution time, the lots still held
/// and the lots realized; the first refusal as the error; `None` where `rust_decimal`
/// overflows or a trade has a zero quantity.
pub open spec fn spec_fifo_tax_projection(events: Seq<PortfolioEvent>) -> Option<
    Result<(Seq<LotValue>, Seq<RealizedValue>), PortfolioError>,
> {
    let order = trade_order(events, events.len() as int);
    match fifo_run(events, order, order.len() as int) {
        None => None,
        Some(Err(e)) => Some(Err(e)),
        Some(Ok(state)) => Some(Ok((open_lot_listing(state.0), state.1))),
    }
}

/// An outcome with a decimal and one with its value agree.
pub open spec fn decimal_outcome_matches<E>(
    r: Option<Result<Decimal, E>>,
    s: Option<Result<(int, nat), E>>,
) -> bool {
    match (r, s) {
        (None, None) => true,
        (Some(Ok(d)), Some(Ok(v))) => d@ == v,
        (Some(Err(e)), Some(Err(f))) => e == f,
        _ => false,
    }
}

proof fn lemma_tax_fees_sticks(t: Trade, k: int)
    requires
        0 <= k <= t.fees@.len(),
        !(tax_fees(t, k) matches Some(Ok(_))),
    ensures
        tax_fees(t, t.fees@.len() as int) == tax_fees(t, k),
    decreases t.fees@.len() - k,
{
    if k < t.fees@.len() {
        lemma_tax_fees_sticks(t, k + 1);
    }
}

impl Trade {
    /// The fees in euros for tax purposes, summed in order.
    fn checked_tax_fees(&self) -> (r: Option<Result<Decimal, PortfolioError>>)
        ensures
            decimal_outcome_matches(r, tax_fees(*self, self.fees@.len() as int)),
    {
        let mut total = Decimal::zero();
        let n = self.fees.len();
        for k in 0..n
            invariant
                n == self.fees@.len(),
                tax_fees(*self, k as int) == Some(Ok::<(int, nat), PortfolioError>(total@)),
        {
            match self.checked_money_for_tax_in_eur(&self.fees[k]) {
                None => {
                    proof {
                        lemma_tax_fees_sticks(*self, k + 1);
                    }
                    return None;
                },
                Some(Err(e)) => {
                    proof {
                        lemma_tax_fees_sticks(*self, k + 1);
                    }
                    return Some(Err(e));
                },
                Some(Ok(m)) => match checked_add(&total, &m.amount) {
                    None => {
                        proof {
                            lemma_tax_fees_sticks(*self, k + 1);
                        }
                        return None;
                    },
                    Some(v) => {
                        total = v;
                    },
                },
            }
        }
        Some(Ok(total))
    }
}

proof fn lemma_lots_available_sticks(lots: Seq<LotValue>, instrument: (bool, Seq<char>), k: int)
    requires
        0 <= k <= lots.len(),
        lots_available(lots, instrument, k) is None,
    ensures
        lots_available(lots, instrument, lots.len() as int) is None,
    decreases lots.len() - k,
{
    if k < lots.len() {
        lemma_lots_available_sticks(lots, instrument, k + 1);
    }
}

/// The remaining quantities of the instrument's lots, summed in order.
fn available_quantity(lots: &Vec<TaxLot>, instrument: &Instrument) -> (r: Option<Decimal>)
    ensures
        option_view(r) == lots_available(lot_values(lots@), instrument@, lots@.len() as int),
{
    let ghost l = lot_values(lots@);
    let mut total = Decimal::zero();
    let n = lots.len();
    for k in 0..n
        invariant
            n == lots@.len(),
            l == lot_values(lots@),
            lots_available(l, instrument@, k as int) == Some(total@),
    {
        if lots[k].instrument.same(instrument) {
            match checked_add(&total, &lots[k].remaining_quantity) {
                None => {
                    proof {
                        lemma_lots_available_sticks(l, instrument@, k + 1);
                    }
                    return None;
                },
                Some(v) => {
                    total = v;
                },
            }
        }
    }
    Some(total)
}

/// A second lot with the same values.
fn copy_lot(lot: &TaxLot) -> (r: TaxLot)
    ensures
        r@ == lot@,
{
    TaxLot {
        acquisition_trade_id: lot.acquisition_trade_id.clone(),
        instrument: lot.instrument.duplicate(),
        acquired_at: lot.acquired_at,
        remaining_quantity: lot.remaining_quantity,
        unit_cost_eur: lot.unit_cost_eur,
    }
}

/// The realized lots appended to `prefix`, where there is an outcome.
pub open spec fn after_realized(
    prefix: Seq<RealizedValue>,
    o: Option<(Seq<LotValue>, Seq<RealizedValue>)>,
) -> Option<(Seq<LotValue>, Seq<RealizedValue>)> {
    match o {
        None => None,
        Some((l, r)) => Some((l, prefix + r)),
    }
}

/// Disposes of `quantity` of the instrument against the lots, oldest first, appending what is
/// realized; false where `rust_decimal` overflows.
fn dispose_lots(
    lots: &mut Vec<TaxLot>,
    realized: &mut Vec<RealizedLot>,
    quantity: Decimal,
    instrument: &Instrument,
    unit_proceeds: Decimal,
    disposal_id: &String,
) -> (ok: bool)
    ensures
        match dispose(
            lot_values(old(lots)@),
            0,
            quantity@,
            instrument@,
            unit_proceeds@,
            disposal_id@,
        ) {
            None => !ok,
            Some((l, r)) => ok && lot_values(final(lots)@) == l && realized_values(final(realized)@)
                == realized_values(old(realized)@) + r,
        },
{
    let ghost l0 = lot_values(lots@);
    let ghost r0 = realized_values(realized@);
    let ghost goal = after_realized(r0, dispose(l0, 0, quantity@, instrument@, unit_proceeds@, disposal_id@));
    let mut remaining = quantity;
    let mut j: usize = 0;
    proof {
        assert(r0 + Seq::<RealizedValue>::empty() =~= r0);
        assert(lot_values(lots@) == l0);
    }
    while j < lots.len()
        invariant
            j <= lots@.len(),
            lots@.len() == l0.len(),
            l0 == lot_values(old(lots)@),
            r0 == realized_values(old(realized)@),
            goal == after_realized(r0, dispose(l0, 0, quantity@, instrument@, unit_proceeds@, disposal_id@)),
            goal == after_realized(
                realized_values(realized@),
                dispose(lot_values(lots@), j as int, remaining@, instrument@, unit_proceeds@, disposal_id@),
            ),
        decreases lots@.len() - j,
    {
        let ghost cur = lot_values(lots@);
        let ghost rv = realized_values(realized@);
        if !lots[j].instrument.same(instrument) || lots[j].remaining_quantity.is_zero() {
            j = j + 1;
        } else if remaining.is_zero() {
            proof {
                assert(rv + Seq::<RealizedValue>::empty() =~= rv);
            }
            return true;
        } else {
            let held = lots[j].remaining_quantity;
            let unit_cost = lots[j].unit_cost_eur;
            let matched = min(&remaining, &held);
            let cost = match checked_mul(&matched, &unit_cost) {
                None => return false,
                Some(v) => v,
            };
            let proceeds = match checked_mul(&matched, &unit_proceeds) {
                None => return false,
                Some(v) => v,
            };
            let gain = match checked_sub(&proceeds, &cost) {
                None => return false,
                Some(v) => v,
            };
            let left = match checked_sub(&held, &matched) {
                None => return false,
                Some(v) => v,
            };
            let rest = match checked_sub(&remaining, &matched) {
                None => return false,
                Some(v) => v,
            };
            let entry = RealizedLot {
                acquisition_trade_id: lots[j].acquisition_trade_id.clone(),
                disposal_trade_id: disposal_id.clone(),
                instrument: instrument.duplicate(),
                quantity: matched,
                acquisition_cost_eur: cost,
                disposal_proceeds_eur: proceeds,
                gain_eur: gain,
            };
            let updated = TaxLot {
                acquisition_trade_id: lots[j].acquisition_trade_id.clone(),
                instrument: lots[j].instrument.duplicate(),
                acquired_at: lots[j].acquired_at,
                remaining_quantity: left,
                unit_cost_eur: unit_cost,
            };
            realized.push(entry);
            lots.set(j, updated);
            remaining = rest;
            proof {
                assert(lot_values(lots@) =~= cur.update(j as int, updated@));
                assert(realized_values(realized@) =~= rv.push(entry@));
                let next = dispose(lot_values(lots@), j + 1, remaining@, instrument@, unit_proceeds@, disposal_id@);
                if next is Some {
                    let r2 = (next->0).1;
                    assert(rv.push(entry@) + r2 =~= rv + (seq![entry@] + r2));
                }
            }
            j = j + 1;
        }
    }
    proof {
        assert(realized_values(realized@) + Seq::<RealizedValue>::empty() =~= realized_values(realized@));
    }
    true
}

/// Where a lot of `instrument` goes in `listing`, by instrument.
fn lot_slot(listing: &Vec<TaxLot>, instrument: &Instrument) -> (r: usize)
    ensures
        r as int == instrument_slot(lot_values(listing@), instrument@),
        r <= listing@.len(),
{
    let ghost l = lot_values(listing@);
    let mut k = listing.len();
    proof {
        assert(l.take(k as int) =~= l);
    }
    while k > 0 && instrument.precedes(&listing[k - 1].instrument)
        invariant
            k <= listing@.len(),
            l == lot_values(listing@),
            instrument_slot(l, instrument@) == instrument_slot(l.take(k as int), instrument@),
        decreases k,
    {
        proof {
            assert(l.take(k as int).drop_last() =~= l.take(k - 1));
            assert(l.take(k as int).last() == l[k - 1]);
        }
        k = k - 1;
    }
    proof {
        if k > 0 {
            assert(l.take(k as int).last() == l[k - 1]);
        }
        assert(l.take(0).len() == 0);
    }
    k
}

/// The lots still held, by instrument, the older first within an instrument.
fn list_open_lots(lots: &Vec<TaxLot>) -> (r: Vec<TaxLot>)
    ensures
        lot_values(r@) == open_lot_listing(lot_values(lots@)),
{
    let ghost l = lot_values(lots@);
    let mut listing: Vec<TaxLot> = Vec::new();
    let n = lots.len();
    proof {
        assert(l.take(0) =~= Seq::<LotValue>::empty());
        assert(lot_values(listing@) =~= Seq::<LotValue>::empty());
    }
    for k in 0..n
        invariant
            n == lots@.len(),
            l == lot_values(lots@),
            lot_values(listing@) == open_lot_listing(l.take(k as int)),
    {
        proof {
            assert(l.take(k + 1).drop_last() =~= l.take(k as int));
            assert(l.take(k + 1).last() == l[k as int]);
        }
        if !lots[k].remaining_quantity.is_zero() {
            let slot = lot_slot(&listing, &lots[k].instrument);
            let lot = copy_lot(&lots[k]);
            let ghost before = lot_values(listing@);
            listing.insert(slot, lot);
            proof {
                assert(lot_values(listing@) =~= before.insert(slot as int, lot@));
            }
        }
    }
    proof {
        assert(l.take(n as int) =~= l);
    }
    listing
}

proof fn lemma_fifo_run_sticks(events: Seq<PortfolioEvent>, order: Seq<int>, k: int)
    requires
        0 <= k <= order.len(),
        !(fifo_run(events, order, k) matches Some(Ok(_))),
    ensures
        fifo_run(events, order, order.len() as int) == fifo_run(events, order, k),
    decreases order.len() - k,
{
    if k < order.len() {
        lemma_fifo_run_sticks(events, order, k + 1);
    }
}

/// The projection as plain values, where there is one.
pub open spec fn projection_matches(
    r: Option<Result<FifoTaxProjection, PortfolioError>>,
    s: Option<Result<(Seq<LotValue>, Seq<RealizedValue>), PortfolioError>>,
) -> bool {
    match (r, s) {
        (None, None) => true,
        (Some(Ok(p)), Some(Ok(v))) => p@ == v,
        (Some(Err(e)), Some(Err(f))) => e == f,
        _ => false,
    }
}

impl Portfolio {
    /// The FIFO tax projection; `None` where `rust_decimal` overflows or a trade has a zero
    /// quantity.
    pub fn checked_fifo_tax_projection(&self) -> (r: Option<Result<FifoTaxProjection, PortfolioError>>)
        ensures
            projection_matches(r, spec_fifo_tax_projection(self.event_log())),
    {
        let order = self.trade_indices();
        let ghost events = self.event_log();
        let ghost o = index_values(order@);
        let mut lots: Vec<TaxLot> = Vec::new();
        let mut realized: Vec<RealizedLot> = Vec::new();
        let n = order.len();
        proof {
            assert(lot_values(lots@) =~= Seq::<LotValue>::empty());
            assert(realized_values(realized@) =~= Seq::<RealizedValue>::empty());
        }
        for k in 0..n
            invariant
                n == order@.len(),
                events == self.event_log(),
                events == self.events@,
                o == index_values(order@),
                o == trade_order(events, events.len() as int),
                forall|i: int| 0 <= i < order@.len() ==> #[trigger] order@[i] < events.len()
                    && events[order@[i] as int] is Trade,
                fifo_run(events, o, k as int) == Some(
                    Ok::<(Seq<LotValue>, Seq<RealizedValue>), PortfolioError>(
                        (lot_values(lots@), realized_values(realized@)),
                    ),
                ),
        {
            let ghost state = (lot_values(lots@), realized_values(realized@));
            proof {
                assert(o[k as int] == order@[k as int] as int);
            }
            let trade = match &self.events[order[k]] {
                PortfolioEvent::Trade(t) => t,
                _ => {
                    return None;
                },
            };
            let fees = match trade.checked_tax_fees() {
                None => {
                    proof {
                        lemma_fifo_run_sticks(events, o, k + 1);
                    }
                    return None;
                },
                Some(Err(e)) => {
                    proof {
                        lemma_fifo_run_sticks(events, o, k + 1);
                    }
                    return Some(Err(e));
                },
                Some(Ok(f)) => f,
            };
            let gross = match trade.checked_gross_amount_for_tax_in_eur() {
                None => {
                    proof {
                        lemma_fifo_run_sticks(events, o, k + 1);
                    }
                    return None;
                },
                Some(Err(e)) => {
                    proof {
                        lemma_fifo_run_sticks(events, o, k + 1);
                    }
                    return Some(Err(e));
                },
                Some(Ok(g)) => g,
            };
            match trade.side {
                TradeSide::Buy => {
                    let total = match checked_add(&gross.amount, &fees) {
                        None => {
                            proof {
                                lemma_fifo_run_sticks(events, o, k + 1);
                            }
                            return None;
                        },
                        Some(v) => v,
                    };
                    let unit_cost = match checked_div(&total, &trade.quantity) {
                        None => {
                            proof {
                                lemma_fifo_run_sticks(events, o, k + 1);
                            }
                            return None;
                        },
                        Some(v) => v,
                    };
                    let lot = TaxLot {
                        acquisition_trade_id: trade.id.clone(),
                        instrument: trade.instrument.duplicate(),
                        acquired_at: trade.executed_at,
                        remaining_quantity: trade.quantity,
                        unit_cost_eur: unit_cost,
                    };
                    lots.push(lot);
                    proof {
                        assert(lot_values(lots@) =~= state.0.push(lot@));
                    }
                },
                TradeSide::Sell => {
                    let net = match checked_sub(&gross.amount, &fees) {
                        None => {
                            proof {
                                lemma_fifo_run_sticks(events, o, k + 1);
                            }
                            return None;
                        },
                        Some(v) => v,
                    };
                    let unit_proceeds = match checked_div(&net, &trade.quantity) {
                        None => {
                            proof {
                                lemma_fifo_run_sticks(events, o, k + 1);
                            }
                            return None;
                        },
                        Some(v) => v,
                    };
                    let available = match available_quantity(&lots, &trade.instrument) {
                        None => {
                            proof {
                                lemma_fifo_run_sticks(events, o, k + 1);
                            }
                            return None;
                        },
                        Some(v) => v,
                    };
                    if lt(&available, &trade.quantity) {
                        proof {
                            lemma_fifo_run_sticks(events, o, k + 1);
                        }
                        return Some(Err(PortfolioError::UnsupportedShortDisposal(trade.id.clone())));
                    }
                    if !dispose_lots(&mut lots, &mut realized, trade.quantity, &trade.instrument, unit_proceeds, &trade.id) {
                        proof {
                            lemma_fifo_run_sticks(events, o, k + 1);
                        }
                        return None;
                    }
                },
            }
        }
        let open_lots = list_open_lots(&lots);
        Some(Ok(FifoTaxProjection { open_lots, realized }))
    }

    /// The FIFO tax projection: the trades by execution time, each buy opening a lot at its
    /// gross amount plus fees per unit in euros, each sell disposing of the oldest lots of its
    /// instrument first; the lots still held, by instrument, and the lots realized. A sell of
    /// more than the lots hold is refused.
    pub fn fifo_tax_projection(&self) -> (r: Result<FifoTaxProjection, PortfolioError>)
        requires
            spec_fifo_tax_projection(self.event_log()) is Some,
        ensures
            projection_matches(Some(r), spec_fifo_tax_projection(self.event_log())),
    {
        self.checked_fifo_tax_projection().unwrap()
    }
}

/// A lot held for the gains in the trade currency: the instrument, the quantity held, the
/// unit cost and the currency.
struct GainLot {
    instrument: Instrument,
    quantity: Decimal,
    unit_cost: Decimal,
    currency: Currency,
}

/// A gain lot as plain values.
pub type GainLotValue = ((bool, Seq<char>), (int, nat), (int, nat), Seq<char>);

impl View for GainLot {
    type V = GainLotValue;

    closed spec fn view(&self) -> GainLotValue {
        (self.instrument@, self.quantity@, self.unit_cost@, self.currency@)
    }
}

spec fn gain_lot_values(lots: Seq<GainLot>) -> Seq<GainLotValue> {
    lots.map_values(|l: GainLot| l@)
}

/// The first `k` fees of a trade summed in order; refused where one is not in `currency`;
/// `None` where `rust_decimal` overflows.
pub open spec fn trade_fees_total(t: Trade, currency: Seq<char>, k: int) -> Option<
    Result<(int, nat), PortfolioError>,
>
    decreases k,
{
    if k <= 0 {
        Some(Ok((0int, 0nat)))
    } else {
        match trade_fees_total(t, currency, k - 1) {
            Some(Ok(total)) => if t.fees@[k - 1].currency@ != currency {
                Some(Err(PortfolioError::MixedTradeCurrencies))
            } else {
                match decimal_sum(total, t.fees@[k - 1].amount@) {
                    None => None,
                    Some(v) => Some(Ok(v)),
                }
            },
            other => other,
        }
    }
}

/// The quantities of the instrument's gain lots among the first `k`, summed in order.
pub open spec fn quantity_available(lots: Seq<GainLotValue>, instrument: (bool, Seq<char>), k: int) -> Option<
    (int, nat),
>
    decreases k,
{
    if k <= 0 {
        Some((0int, 0nat))
    } else {
        match quantity_available(lots, instrument, k - 1) {
            None => None,
            Some(total) => if lots[k - 1].0 == instrument {
                decimal_sum(total, lots[k - 1].1)
            } else {
                Some(total)
            },
        }
    }
}

/// Disposing of `remaining` against the instrument's gain lots from the `j`-th on, oldest
/// first, adding to the gain of `currency` the matched quantity times the unit proceeds less
/// the unit cost; refused where a matched lot is in another currency.
pub open spec fn realize_gains(
    lots: Seq<GainLotValue>,
    j: int,
    remaining: (int, nat),
    instrument: (bool, Seq<char>),
    unit_proceeds: (int, nat),
    currency: Seq<char>,
    gains: Map<Seq<char>, (int, nat)>,
) -> Option<Result<(Seq<GainLotValue>, Map<Seq<char>, (int, nat)>), PortfolioError>>
    decreases lots.len() - j,
{
    if j < 0 || j >= lots.len() {
        Some(Ok((lots, gains)))
    } else {
        let lot = lots[j];
        if lot.0 != instrument || lot.1.0 == 0 {
            realize_gains(lots, j + 1, remaining, instrument, unit_proceeds, currency, gains)
        } else if remaining.0 == 0 {
            Some(Ok((lots, gains)))
        } else if lot.3 != currency {
            Some(Err(PortfolioError::MixedTradeCurrencies))
        } else {
            let matched = lesser(remaining, lot.1);
            match decimal_difference(unit_proceeds, lot.2) {
                None => None,
                Some(margin) => match apply_posting(gains, (currency, matched, margin)) {
                    None => None,
                    Some(g) => match (decimal_difference(lot.1, matched), decimal_difference(remaining, matched)) {
                        (Some(left), Some(rest)) => realize_gains(
                            lots.update(j, (lot.0, left, lot.2, lot.3)),
                            j + 1,
                            rest,
                            instrument,
                            unit_proceeds,
                            currency,
                            g,
                        ),
                        _ => None,
                    },
                },
            }
        }
    }
}

/// One trade of the gains by currency: a buy opens a lot at its gross amount plus fees per
/// unit; a sell is refused where the lots of its instrument hold less than it sells, and
/// otherwise disposes of the oldest lots first at its gross amount less fees per unit.
pub open spec fn gains_step(state: (Seq<GainLotValue>, Map<Seq<char>, (int, nat)>), t: Trade) -> Option<
    Result<(Seq<GainLotValue>, Map<Seq<char>, (int, nat)>), PortfolioError>,
> {
    let currency = t.unit_price.currency@;
    match trade_fees_total(t, currency, t.fees@.len() as int) {
        None => None,
        Some(Err(e)) => Some(Err(e)),
        Some(Ok(fees)) => match spec_gross_amount(t) {
            None => None,
            Some(gross) => match t.side {
                TradeSide::Buy => match decimal_sum(gross, fees) {
                    None => None,
                    Some(total) => match decimal_quotient(total, t.quantity@) {
                        None => None,
                        Some(unit_cost) => Some(
                            Ok((state.0.push((t.instrument@, t.quantity@, unit_cost, currency)), state.1)),
                        ),
                    },
                },
                TradeSide::Sell => match quantity_available(state.0, t.instrument@, state.0.len() as int) {
                    None => None,
                    Some(available) => if units(available) < units(t.quantity@) {
                        Some(Err(PortfolioError::UnsupportedShortDisposal(t.id)))
                    } else {
                        match decimal_difference(gross, fees) {
                            None => None,
                            Some(net) => match decimal_quotient(net, t.quantity@) {
                                None => None,
                                Some(unit_proceeds) => realize_gains(
                                    state.0,
                                    0,
                                    t.quantity@,
                                    t.instrument@,
                                    unit_proceeds,
                                    currency,
                                    state.1,
                                ),
                            },
                        }
                    },
                },
            },
        },
    }
}

/// The gains after the first `k` trades of `order`.
pub open spec fn gains_run(events: Seq<PortfolioEvent>, order: Seq<int>, k: int) -> Option<
    Result<(Seq<GainLotValue>, Map<Seq<char>, (int, nat)>), PortfolioError>,
>
    decreases k,
{
    if k <= 0 {
        Some(Ok((Seq::empty(), Map::empty())))
    } else {
        match gains_run(events, order, k - 1) {
            Some(Ok(state)) => match events[order[k - 1]] {
                PortfolioEvent::Trade(t) => gains_step(state, t),
                _ => Some(Ok(state)),
            },
            other => other,
        }
    }
}

/// The realized gains of the events by currency, the trades by execution time; the first
/// refusal as the error; `None` where `rust_decimal` overflows or a trade has a zero quantity.
pub open spec fn spec_realized_gains(events: Seq<PortfolioEvent>) -> Option<
    Result<Map<Seq<char>, (int, nat)>, PortfolioError>,
> {
    let order = trade_order(events, events.len() as int);
    match gains_run(events, order, order.len() as int) {
        None => None,
        Some(Err(e)) => Some(Err(e)),
        Some(Ok(state)) => Some(Ok(state.1)),
    }
}

proof fn lemma_trade_fees_total_sticks(t: Trade, currency: Seq<char>, k: int)
    requires
        0 <= k <= t.fees@.len(),
        !(trade_fees_total(t, currency, k) matches Some(Ok(_))),
    ensures
        trade_fees_total(t, currency, t.fees@.len() as int) == trade_fees_total(t, currency, k),
    decreases t.fees@.len() - k,
{
    if k < t.fees@.len() {
        lemma_trade_fees_total_sticks(t, currency, k + 1);
    }
}

impl Trade {
    /// The fees summed in order, all in the currency of the unit price.
    fn checked_fees_total(&self) -> (r: Option<Result<Decimal, PortfolioError>>)
        ensures
            decimal_outcome_matches(
                r,
                trade_fees_total(*self, self.unit_price.currency@, self.fees@.len() as int),
            ),
    {
        let ghost currency = self.unit_price.currency@;
        let mut total = Decimal::zero();
        let n = self.fees.len();
        for k in 0..n
            invariant
                n == self.fees@.len(),
                currency == self.unit_price.currency@,
                trade_fees_total(*self, currency, k as int) == Some(Ok::<(int, nat), PortfolioError>(total@)),
        {
            if !self.fees[k].currency.same(&self.unit_price.currency) {
                proof {
                    lemma_trade_fees_total_sticks(*self, currency, k + 1);
                }
                return Some(Err(PortfolioError::MixedTradeCurrencies));
            }
            match checked_add(&total, &self.fees[k].amount) {
                None => {
                    proof {
                        lemma_trade_fees_total_sticks(*self, currency, k + 1);
                    }
                    return None;
                },
                Some(v) => {
                    total = v;
                },
            }
        }
        Some(Ok(total))
    }
}

proof fn lemma_quantity_available_sticks(lots: Seq<GainLotValue>, instrument: (bool, Seq<char>), k: int)
    requires
        0 <= k <= lots.len(),
        quantity_available(lots, instrument, k) is None,
    ensures
        quantity_available(lots, instrument, lots.len() as int) is None,
    decreases lots.len() - k,
{
    if k < lots.len() {
        lemma_quantity_available_sticks(lots, instrument, k + 1);
    }
}

/// The quantities of the instrument's gain lots, summed in order.
fn gain_quantity_available(lots: &Vec<GainLot>, instrument: &Instrument) -> (r: Option<Decimal>)
    ensures
        option_view(r) == quantity_available(gain_lot_values(lots@), instrument@, lots@.len() as int),
{
    let ghost l = gain_lot_values(lots@);
    let mut total = Decimal::zero();
    let n = lots.len();
    for k in 0..n
        invariant
            n == lots@.len(),
            l == gain_lot_values(lots@),
            quantity_available(l, instrument@, k as int) == Some(total@),
    {
        proof {
            assert(l[k as int] == lots@[k as int]@);
        }
        if lots[k].instrument.same(instrument) {
            match checked_add(&total, &lots[k].quantity) {
                None => {
                    proof {
                        lemma_quantity_available_sticks(l, instrument@, k + 1);
                    }
                    return None;
                },
                Some(v) => {
                    total = v;
                },
            }
        }
    }
    Some(total)
}

/// The outcome of disposing against gain lots, as plain values.
pub open spec fn gains_outcome_matches(
    r: Option<Result<(), PortfolioError>>,
    s: Option<Result<(Seq<GainLotValue>, Map<Seq<char>, (int, nat)>), PortfolioError>>,
    lots: Seq<GainLotValue>,
    gains: Seq<(String, Decimal)>,
) -> bool {
    match (r, s) {
        (None, None) => true,
        (Some(Err(e)), Some(Err(f))) => e == f,
        (Some(Ok(())), Some(Ok((l, g)))) => lots == l && codes_sorted(gains) && lists_code_map(gains, g),
        _ => false,
    }
}

/// Disposes of `quantity` of the instrument against the gain lots, oldest first, adding to
/// the gain of the currency.
fn dispose_gain_lots(
    lots: &mut Vec<GainLot>,
    gains: &mut Vec<(String, Decimal)>,
    Ghost(gm): Ghost<Map<Seq<char>, (int, nat)>>,
    quantity: Decimal,
    instrument: &Instrument,
    unit_proceeds: Decimal,
    currency: &Currency,
) -> (r: Option<Result<(), PortfolioError>>)
    requires
        codes_sorted(old(gains)@),
        lists_code_map(old(gains)@, gm),
    ensures
        gains_outcome_matches(
            r,
            realize_gains(
                gain_lot_values(old(lots)@),
                0,
                quantity@,
                instrument@,
                unit_proceeds@,
                currency@,
                gm,
            ),
            gain_lot_values(final(lots)@),
            final(gains)@,
        ),
{
    let ghost goal = realize_gains(
        gain_lot_values(lots@),
        0,
        quantity@,
        instrument@,
        unit_proceeds@,
        currency@,
        gm,
    );
    let ghost mut cur_map = gm;
    let mut remaining = quantity;
    let mut j: usize = 0;
    while j < lots.len()
        invariant
            j <= lots@.len(),
            goal == realize_gains(
                gain_lot_values(old(lots)@),
                0,
                quantity@,
                instrument@,
                unit_proceeds@,
                currency@,
                gm,
            ),
            goal == realize_gains(
                gain_lot_values(lots@),
                j as int,
                remaining@,
                instrument@,
                unit_proceeds@,
                currency@,
                cur_map,
            ),
            codes_sorted(gains@),
            lists_code_map(gains@, cur_map),
        decreases lots@.len() - j,
    {
        let ghost cur = gain_lot_values(lots@);
        proof {
            assert(cur[j as int] == lots@[j as int]@);
        }
        if !lots[j].instrument.same(instrument) || lots[j].quantity.is_zero() {
            j = j + 1;
        } else if remaining.is_zero() {
            return Some(Ok(()));
        } else if !lots[j].currency.same(currency) {
            return Some(Err(PortfolioError::MixedTradeCurrencies));
        } else {
            let held = lots[j].quantity;
            let unit_cost = lots[j].unit_cost;
            let matched = min(&remaining, &held);
            let margin = match checked_sub(&unit_proceeds, &unit_cost) {
                None => return None,
                Some(v) => v,
            };
            let ghost before = gains@;
            if !add_money(gains, &Money::new(margin, currency.duplicate()), matched) {
                return None;
            }
            proof {
                cur_map = apply_posting(cur_map, (currency@, matched@, margin@))->0;
            }
            let left = match checked_sub(&held, &matched) {
                None => return None,
                Some(v) => v,
            };
            let rest = match checked_sub(&remaining, &matched) {
                None => return None,
                Some(v) => v,
            };
            let updated = GainLot {
                instrument: lots[j].instrument.duplicate(),
                quantity: left,
                unit_cost,
                currency: lots[j].currency.duplicate(),
            };
            lots.set(j, updated);
            remaining = rest;
            proof {
                assert(gain_lot_values(lots@) =~= cur.update(j as int, updated@));
            }
            j = j + 1;
        }
    }
    Some(Ok(()))
}

proof fn lemma_gains_run_sticks(events: Seq<PortfolioEvent>, order: Seq<int>, k: int)
    requires
        0 <= k <= order.len(),
        !(gains_run(events, order, k) matches Some(Ok(_))),
    ensures
        gains_run(events, order, order.len() as int) == gains_run(events, order, k),
    decreases order.len() - k,
{
    if k < order.len() {
        lemma_gains_run_sticks(events, order, k + 1);
    }
}

/// The gains by currency as listed entries, where there are some.
pub open spec fn gains_match(
    r: Option<Result<Vec<(String, Decimal)>, PortfolioError>>,
    s: Option<Result<Map<Seq<char>, (int, nat)>, PortfolioError>>,
) -> bool {
    match (r, s) {
        (None, None) => true,
        (Some(Ok(v)), Some(Ok(m))) => codes_sorted(v@) && lists_code_map(v@, m),
        (Some(Err(e)), Some(Err(f))) => e == f,
        _ => false,
    }
}

impl Portfolio {
    /// The realized gains by currency; `None` where `rust_decimal` overflows or a trade has a
    /// zero quantity.
    pub fn checked_realized_gains_by_currency(&self) -> (r: Option<Result<Vec<(String, Decimal)>, PortfolioError>>)
        ensures
            gains_match(r, spec_realized_gains(self.event_log())),
    {
        let order = self.trade_indices();
        let ghost events = self.event_log();
        let ghost o = index_values(order@);
        let mut lots: Vec<GainLot> = Vec::new();
        let mut gains: Vec<(String, Decimal)> = Vec::new();
        let ghost mut gm = Map::<Seq<char>, (int, nat)>::empty();
        let n = order.len();
        proof {
            assert(gain_lot_values(lots@) =~= Seq::<GainLotValue>::empty());
        }
        for k in 0..n
            invariant
                n == order@.len(),
                events == self.event_log(),
                events == self.events@,
                o == index_values(order@),
                o == trade_order(events, events.len() as int),
                forall|i: int| 0 <= i < order@.len() ==> #[trigger] order@[i] < events.len()
                    && events[order@[i] as int] is Trade,
                gains_run(events, o, k as int) == Some(
                    Ok::<(Seq<GainLotValue>, Map<Seq<char>, (int, nat)>), PortfolioError>(
                        (gain_lot_values(lots@), gm),
                    ),
                ),
                codes_sorted(gains@),
                lists_code_map(gains@, gm),
        {
            let ghost state = (gain_lot_values(lots@), gm);
            proof {
                assert(o[k as int] == order@[k as int] as int);
            }
            let trade = match &self.events[order[k]] {
                PortfolioEvent::Trade(t) => t,
                _ => {
                    return None;
                },
            };
            let fees = match trade.checked_fees_total() {
                None => {
                    proof {
                        lemma_gains_run_sticks(events, o, k + 1);
                    }
                    return None;
                },
                Some(Err(e)) => {
                    proof {
                        lemma_gains_run_sticks(events, o, k + 1);
                    }
                    return Some(Err(e));
                },
                Some(Ok(f)) => f,
            };
            let gross = match trade.checked_gross_amount() {
                None => {
                    proof {
                        lemma_gains_run_sticks(events, o, k + 1);
                    }
                    return None;
                },
                Some(g) => g.amount,
            };
            match trade.side {
                TradeSide::Buy => {
                    let total = match checked_add(&gross, &fees) {
                        None => {
                            proof {
                                lemma_gains_run_sticks(events, o, k + 1);
                            }
                            return None;
                        },
                        Some(v) => v,
                    };
                    let unit_cost = match checked_div(&total, &trade.quantity) {
                        None => {
                            proof {
                                lemma_gains_run_sticks(events, o, k + 1);
                            }
                            return None;
                        },
                        Some(v) => v,
                    };
                    let lot = GainLot {
                        instrument: trade.instrument.duplicate(),
                        quantity: trade.quantity,
                        unit_cost,
                        currency: trade.unit_price.currency.duplicate(),
                    };
                    lots.push(lot);
                    proof {
                        assert(gain_lot_values(lots@) =~= state.0.push(lot@));
                    }
                },
                TradeSide::Sell => {
                    let available = match gain_quantity_available(&lots, &trade.instrument) {
                        None => {
                            proof {
                                lemma_gains_run_sticks(events, o, k + 1);
                            }
                            return None;
                        },
                        Some(v) => v,
                    };
                    if lt(&available, &trade.quantity) {
                        proof {
                            lemma_gains_run_sticks(events, o, k + 1);
                        }
                        return Some(Err(PortfolioError::UnsupportedShortDisposal(trade.id.clone())));
                    }
                    let net = match checked_sub(&gross, &fees) {
                        None => {
                            proof {
                                lemma_gains_run_sticks(events, o, k + 1);
                            }
                            return None;
                        },
                        Some(v) => v,
                    };
                    let unit_proceeds = match checked_div(&net, &trade.quantity) {
                        None => {
                            proof {
                                lemma_gains_run_sticks(events, o, k + 1);
                            }
                            return None;
                        },
                        Some(v) => v,
                    };
                    let ghost outcome = realize_gains(
                        state.0,
                        0,
                        trade.quantity@,
                        trade.instrument@,
                        unit_proceeds@,
                        trade.unit_price.currency@,
                        gm,
                    );
                    match dispose_gain_lots(
                        &mut lots,
                        &mut gains,
                        Ghost(gm),
                        trade.quantity,
                        &trade.instrument,
                        unit_proceeds,
                        &trade.unit_price.currency,
                    ) {
                        None => {
                            proof {
                                lemma_gains_run_sticks(events, o, k + 1);
                            }
                            return None;
                        },
                        Some(Err(e)) => {
                            proof {
                                lemma_gains_run_sticks(events, o, k + 1);
                            }
                            return Some(Err(e));
                        },
                        Some(Ok(())) => {
                            proof {
                                gm = ((outcome->0)->Ok_0).1;
                            }
                        },
                    }
                },
            }
        }
        Some(Ok(gains))
    }

    /// The realized gains by currency: the trades by execution time, each buy opening a lot
    /// at its gross amount plus fees per unit, each sell disposing of the oldest lots of its
    /// instrument first at its gross amount less fees per unit, all in the trade currency.
    /// Fees or lots in another currency are refused, and so is a sell of more than the lots
    /// hold.
    pub fn realized_gains_by_currency(&self) -> (r: Result<Vec<(String, Decimal)>, PortfolioError>)
        requires
            spec_realized_gains(self.event_log()) is Some,
        ensures
            gains_match(Some(r), spec_realized_gains(self.event_log())),
    {
        self.checked_realized_gains_by_currency().unwrap()
    }
}

/// The text a portfolio error is shown with.
pub open spec fn portfolio_error_text(e: PortfolioError) -> Seq<char> {
    match e {
        PortfolioError::InvalidCurrency(code) => "moeda ISO inválida: "@ + code@,
        PortfolioError::InvalidExchangeRate => "a taxa de câmbio deve ser positiva"@,
        PortfolioError::MissingExchangeRateSource => "a taxa de câmbio requer uma fonte"@,
        PortfolioError::ExchangeRateCurrencyMismatch => "a moeda não corresponde à base da taxa de câmbio"@,
        PortfolioError::ExchangeAmountsMismatch => "os montantes não correspondem à taxa de câmbio"@,
        PortfolioError::MissingTransactionId => "a transação requer um identificador"@,
        PortfolioError::InvalidQuantity => "a quantidade deve ser positiva"@,
        PortfolioError::InvalidPrice => "o preço não pode ser negativo"@,
        PortfolioError::InvalidAmount => "o montante deve ser positivo"@,
        PortfolioError::MissingTaxExchangeRate => "falta a taxa histórica para conversão fiscal em EUR"@,
        PortfolioError::InvalidWithholdingTax => "retenção de dividendo inválida"@,
        PortfolioError::InvalidPortfolioIdentity => "portfolio requer id e nome"@,
        PortfolioError::DuplicateEventId(id) => "evento duplicado: "@ + id@,
        PortfolioError::UnsupportedShortDisposal(id) => "a venda "@ + id@ + " excede os lotes longos disponíveis"@,
        PortfolioError::MixedTradeCurrencies => "lote, transação e comissões devem usar a mesma moeda"@,
        PortfolioError::MissingValuationExchangeRate(currency) => "falta uma taxa para valorizar o saldo em "@
            + currency@,
    }
}

impl PortfolioError {
    /// The text the error is shown with.
    pub fn message(&self) -> (r: String)
        ensures
            r@ == portfolio_error_text(*self),
    {
        match self {
            PortfolioError::InvalidCurrency(code) => concat("moeda ISO inválida: ", code.as_str()),
            PortfolioError::InvalidExchangeRate => String::from_str("a taxa de câmbio deve ser positiva"),
            PortfolioError::MissingExchangeRateSource => String::from_str("a taxa de câmbio requer uma fonte"),
            PortfolioError::ExchangeRateCurrencyMismatch => String::from_str(
                "a moeda não corresponde à base da taxa de câmbio",
            ),
            PortfolioError::ExchangeAmountsMismatch => String::from_str(
                "os montantes não correspondem à taxa de câmbio",
            ),
            PortfolioError::MissingTransactionId => String::from_str("a transação requer um identificador"),
            PortfolioError::InvalidQuantity => String::from_str("a quantidade deve ser positiva"),
            PortfolioError::InvalidPrice => String::from_str("o preço não pode ser negativo"),
            PortfolioError::InvalidAmount => String::from_str("o montante deve ser positivo"),
            PortfolioError::MissingTaxExchangeRate => String::from_str(
                "falta a taxa histórica para conversão fiscal em EUR",
            ),
            PortfolioError::InvalidWithholdingTax => String::from_str("retenção de dividendo inválida"),
            PortfolioError::InvalidPortfolioIdentity => String::from_str("portfolio requer id e nome"),
            PortfolioError::DuplicateEventId(id) => concat("evento duplicado: ", id.as_str()),
            PortfolioError::UnsupportedShortDisposal(id) => joined(
                "a venda ",
                id.as_str(),
                " excede os lotes longos disponíveis",
            ),
            PortfolioError::MixedTradeCurrencies => String::from_str(
                "lote, transação e comissões devem usar a mesma moeda",
            ),
            PortfolioError::MissingValuationExchangeRate(currency) => concat("falta uma taxa para valorizar o saldo em ", currency.as_str()),
        }
    }
}

/// Trades ordered by execution time, the earlier recorded first among equal times.
pub open spec fn time_ordered(order: Seq<int>, events: Seq<PortfolioEvent>) -> bool {
    forall|i: int, j: int|
        0 <= i < j < order.len() ==> trade_time(events[#[trigger] order[i]]) < trade_time(events[#[trigger] order[j]])
            || (trade_time(events[order[i]]) == trade_time(events[order[j]]) && order[i] < order[j])
}

proof fn lemma_time_slot_splits(order: Seq<int>, events: Seq<PortfolioEvent>, time: int)
    requires
        time_ordered(order, events),
    ensures
        forall|i: int| 0 <= i < time_slot(order, events, time) ==> trade_time(events[#[trigger] order[i]]) <= time,
        forall|i: int|
            time_slot(order, events, time) <= i < order.len() ==> trade_time(events[#[trigger] order[i]]) > time,
    decreases order.len(),
{
    lemma_time_slot_bounds(order, events, time);
    if order.len() > 0 {
        let rest = order.drop_last();
        assert(time_ordered(rest, events)) by {
            assert forall|i: int, j: int| 0 <= i < j < rest.len() implies trade_time(events[#[trigger] rest[i]])
                < trade_time(events[#[trigger] rest[j]]) || (trade_time(events[rest[i]]) == trade_time(
                events[rest[j]],
            ) && rest[i] < rest[j]) by {
                assert(rest[i] == order[i] && rest[j] == order[j]);
            }
        }
        lemma_time_slot_splits(rest, events, time);
        if trade_time(events[order.last()]) > time {
            assert forall|i: int| time_slot(order, events, time) <= i < order.len() implies trade_time(
                events[#[trigger] order[i]],
            ) > time by {
                if i < order.len() - 1 {
                    assert(rest[i] == order[i]);
                }
            }
            assert forall|i: int| 0 <= i < time_slot(order, events, time) implies trade_time(
                events[#[trigger] order[i]],
            ) <= time by {
                assert(rest[i] == order[i]);
            }
        } else {
            assert forall|i: int| 0 <= i < order.len() implies trade_time(events[#[trigger] order[i]]) <= time by {
                if i < order.len() - 1 {
                    let last = order.len() - 1;
                    assert(trade_time(events[order[i]]) <= trade_time(events[order[last]]));
                }
            }
        }
    }
}

/// The projection takes the trades in execution-time order, the earlier recorded first among
/// trades executed at the same time.
pub proof fn lemma_trade_order_by_time(events: Seq<PortfolioEvent>, n: int)
    requires
        0 <= n <= events.len(),
    ensures
        time_ordered(trade_order(events, n), events),
    decreases n,
{
    if n > 0 {
        lemma_trade_order_by_time(events, n - 1);
        lemma_trade_order_bounds(events, n - 1);
        let o = trade_order(events, n - 1);
        if events[n - 1] is Trade {
            let t = trade_time(events[n - 1]);
            let k = time_slot(o, events, t);
            lemma_time_slot_splits(o, events, t);
            lemma_time_slot_bounds(o, events, t);
            let o2 = o.insert(k, n - 1);
            assert forall|i: int, j: int| 0 <= i < j < o2.len() implies trade_time(events[#[trigger] o2[i]])
                < trade_time(events[#[trigger] o2[j]]) || (trade_time(events[o2[i]]) == trade_time(
                events[o2[j]],
            ) && o2[i] < o2[j]) by {
                if j < k {
                    assert(o2[i] == o[i] && o2[j] == o[j]);
                } else if j == k {
                    assert(o2[i] == o[i]);
                    assert(trade_time(events[o[i]]) <= t);
                    assert(o[i] < n - 1);
                } else if i > k {
                    assert(o2[i] == o[i - 1] && o2[j] == o[j - 1]);
                } else if i == k {
                    assert(o2[j] == o[j - 1]);
                    assert(trade_time(events[o[j - 1]]) > t);
                } else {
                    assert(o2[i] == o[i] && o2[j] == o[j - 1]);
                    assert(trade_time(events[o[i]]) <= t);
                    assert(trade_time(events[o[j - 1]]) > t);
                }
            }
        }
    }
}

/// Lots listed by instrument, no lot before one of an earlier instrument.
pub open spec fn listed_by_instrument(listing: Seq<LotValue>) -> bool {
    forall|i: int, j: int| 0 <= i < j < listing.len() ==> !instrument_lt(#[trigger] listing[j].1, #[trigger] listing[i].1)
}

proof fn lemma_instrument_slot_splits(listing: Seq<LotValue>, instrument: (bool, Seq<char>))
    requires
        listed_by_instrument(listing),
    ensures
        0 <= instrument_slot(listing, instrument) <= listing.len(),
        forall|i: int| 0 <= i < instrument_slot(listing, instrument) ==> !instrument_lt(instrument, #[trigger] listing[i].1),
        forall|i: int|
            instrument_slot(listing, instrument) <= i < listing.len() ==> instrument_lt(instrument, #[trigger] listing[i].1),
    decreases listing.len(),
{
    if listing.len() > 0 {
        let rest = listing.drop_last();
        assert(listed_by_instrument(rest)) by {
            assert forall|i: int, j: int| 0 <= i < j < rest.len() implies !instrument_lt(#[trigger] rest[j].1, #[trigger] rest[i].1) by {
                assert(rest[i] == listing[i] && rest[j] == listing[j]);
            }
        }
        lemma_instrument_slot_splits(rest, instrument);
        let last = listing.len() - 1;
        if instrument_lt(instrument, listing.last().1) {
            assert forall|i: int| instrument_slot(listing, instrument) <= i < listing.len() implies instrument_lt(
                instrument,
                #[trigger] listing[i].1,
            ) by {
                if i < last {
                    assert(rest[i] == listing[i]);
                }
            }
            assert forall|i: int| 0 <= i < instrument_slot(listing, instrument) implies !instrument_lt(
                instrument,
                #[trigger] listing[i].1,
            ) by {
                assert(rest[i] == listing[i]);
            }
        } else {
            assert forall|i: int| 0 <= i < listing.len() implies !instrument_lt(instrument, #[trigger] listing[i].1) by {
                if i < last {
                    assert(!instrument_lt(listing[last].1, listing[i].1));
                    lemma_instrument_lt_order(instrument, listing[i].1, listing[last].1);
                    lemma_instrument_lt_order(listing[i].1, listing[last].1, instrument);
                }
            }
        }
    }
}

/// The open lots of the projection are the lots still held, listed by instrument.
pub proof fn lemma_open_lots_held_and_by_instrument(lots: Seq<LotValue>)
    ensures
        listed_by_instrument(open_lot_listing(lots)),
        forall|i: int| 0 <= i < open_lot_listing(lots).len() ==> #[trigger] open_lot_listing(lots)[i].3.0 != 0,
    decreases lots.len(),
{
    if lots.len() > 0 {
        lemma_open_lots_held_and_by_instrument(lots.drop_last());
        let listing = open_lot_listing(lots.drop_last());
        let lot = lots.last();
        if lot.3.0 != 0 {
            lemma_instrument_slot_splits(listing, lot.1);
            let k = instrument_slot(listing, lot.1);
            let l2 = listing.insert(k, lot);
            assert forall|i: int, j: int| 0 <= i < j < l2.len() implies !instrument_lt(#[trigger] l2[j].1, #[trigger] l2[i].1) by {
                if j < k {
                    assert(l2[i] == listing[i] && l2[j] == listing[j]);
                } else if j == k {
                    assert(l2[i] == listing[i]);
                } else if i > k {
                    assert(l2[i] == listing[i - 1] && l2[j] == listing[j - 1]);
                } else if i == k {
                    assert(l2[j] == listing[j - 1]);
                    lemma_instrument_lt_order(lot.1, listing[j - 1].1, lot.1);
                } else {
                    assert(l2[i] == listing[i] && l2[j] == listing[j - 1]);
                    lemma_instrument_lt_order(listing[j - 1].1, listing[i].1, lot.1);
                    lemma_instrument_lt_order(lot.1, listing[j - 1].1, listing[i].1);
                }
            }
            assert forall|i: int| 0 <= i < l2.len() implies #[trigger] l2[i].3.0 != 0 by {
                if i < k {
                    assert(l2[i] == listing[i]);
                } else if i > k {
                    assert(l2[i] == listing[i - 1]);
                }
            }
        }
    }
}

} // verus!
