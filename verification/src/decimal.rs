//! Exact decimal amounts, computed by `rust_decimal`.
//!
//! A [`Decimal`] holds the two plain values that `rust_decimal::Decimal` is made of: a
//! mantissa of at most 96 bits and a scale from 0 to 28, its value being
//! `mantissa / 10^scale`. Every arithmetic operation is carried out by `rust_decimal`; the
//! contracts below name its results and state when they are exact. The type invariant keeps
//! every `Decimal` within what `rust_decimal` accepts, so handing one over never fails.

use vstd::prelude::*;

verus! {

/// The largest mantissa magnitude, `2^96 - 1`.
pub const MAX_MANTISSA: i128 = 0xFFFF_FFFF_FFFF_FFFF_FFFF_FFFF;

/// The largest number of fractional digits.
pub const MAX_SCALE: u32 = 28;

#[derive(Debug, Clone, Copy)]
pub struct Decimal {
    mantissa: i128,
    scale: u32,
}

pub open spec fn pow10(n: nat) -> int
    decreases n,
{
    if n == 0 {
        1
    } else {
        10 * pow10((n - 1) as nat)
    }
}

/// A mantissa and scale that a decimal can hold.
pub open spec fn representable(v: (int, nat)) -> bool {
    -(MAX_MANTISSA as int) <= v.0 <= MAX_MANTISSA as int && v.1 <= MAX_SCALE as nat
}

/// The value `v.0 / 10^v.1`, counted in units of `10^-28`.
pub open spec fn units(v: (int, nat)) -> int {
    v.0 * pow10((MAX_SCALE - v.1) as nat)
}

/// Whether a value given in units of `10^-28` is held exactly by a mantissa at `scale`.
pub open spec fn fits_at(u: int, scale: nat) -> bool {
    scale <= MAX_SCALE && u % pow10((MAX_SCALE - scale) as nat) == 0 && -(MAX_MANTISSA as int) <= u
        / pow10((MAX_SCALE - scale) as nat) <= MAX_MANTISSA as int
}

pub proof fn lemma_pow10_positive(n: nat)
    ensures
        pow10(n) >= 1,
    decreases n,
{
    if n > 0 {
        lemma_pow10_positive((n - 1) as nat);
    }
}

proof fn lemma_pow10_monotone(a: nat, b: nat)
    requires
        a <= b,
    ensures
        pow10(a) <= pow10(b),
    decreases b,
{
    if a < b {
        lemma_pow10_monotone(a, (b - 1) as nat);
        lemma_pow10_positive((b - 1) as nat);
    }
}

/// A value has the sign of its mantissa.
pub proof fn lemma_units_sign(v: (int, nat))
    ensures
        (units(v) > 0) == (v.0 > 0),
        (units(v) < 0) == (v.0 < 0),
        (units(v) == 0) == (v.0 == 0),
{
    let p = pow10((MAX_SCALE - v.1) as nat);
    lemma_pow10_positive((MAX_SCALE - v.1) as nat);
    assert(v.0 > 0 ==> v.0 * p > 0) by (nonlinear_arith)
        requires
            p >= 1,
    ;
    assert(v.0 < 0 ==> v.0 * p < 0) by (nonlinear_arith)
        requires
            p >= 1,
    ;
}

/// A representable decimal lies within the range of a decimal.
pub proof fn lemma_units_within_range(v: (int, nat))
    requires
        representable(v),
    ensures
        within_range(units(v)),
        -(MAX_MANTISSA as int) * pow10(MAX_SCALE as nat) <= units(v) <= (MAX_MANTISSA as int)
            * pow10(MAX_SCALE as nat),
{
    let p = pow10((MAX_SCALE - v.1) as nat);
    let q = pow10(MAX_SCALE as nat);
    lemma_pow10_monotone((MAX_SCALE - v.1) as nat, MAX_SCALE as nat);
    lemma_pow10_positive((MAX_SCALE - v.1) as nat);
    let m = MAX_MANTISSA as int;
    assert(v.0 * p <= m * q) by (nonlinear_arith)
        requires
            v.0 <= m,
            0 <= m,
            1 <= p <= q,
    ;
    assert(-m * q <= v.0 * p) by (nonlinear_arith)
        requires
            -m <= v.0,
            0 <= m,
            1 <= p <= q,
    ;
}

/// Whether a value given in units of `10^-28` lies between the smallest and the largest decimal.
pub open spec fn within_range(u: int) -> bool {
    -(MAX_MANTISSA as int) * pow10(MAX_SCALE as nat) <= u <= (MAX_MANTISSA as int) * pow10(
        MAX_SCALE as nat,
    )
}

/// The value `u`, given in units of `10^-28`, written with a mantissa at `scale`.
pub open spec fn at_scale(u: int, scale: nat) -> (int, nat) {
    (u / pow10((MAX_SCALE - scale) as nat), scale)
}

pub open spec fn max_scale(a: (int, nat), b: (int, nat)) -> nat {
    if a.1 >= b.1 {
        a.1
    } else {
        b.1
    }
}

pub open spec fn option_view(r: Option<Decimal>) -> Option<(int, nat)> {
    match r {
        Some(d) => Some(d@),
        None => None,
    }
}

/// What `rust_decimal`'s checked addition gives for two decimals (`None` on overflow).
pub uninterp spec fn decimal_sum(a: (int, nat), b: (int, nat)) -> Option<(int, nat)>;

/// What `rust_decimal`'s checked subtraction gives for two decimals (`None` on overflow).
pub uninterp spec fn decimal_difference(a: (int, nat), b: (int, nat)) -> Option<(int, nat)>;

/// What `rust_decimal`'s checked multiplication gives for two decimals (`None` on overflow).
pub uninterp spec fn decimal_product(a: (int, nat), b: (int, nat)) -> Option<(int, nat)>;

/// What `rust_decimal`'s checked division gives for two decimals (`None` on a zero divisor or
/// overflow).
pub uninterp spec fn decimal_quotient(a: (int, nat), b: (int, nat)) -> Option<(int, nat)>;

/// What `rust_decimal`'s `FromStr` reads from a text (`None` when it refuses the text).
pub uninterp spec fn decimal_parse(text: Seq<char>) -> Option<(int, nat)>;

/// Whether rust_decimal's checked addition of `a` and `b` is exact: an operand is zero, or the
/// exact sum is held by a mantissa at the larger scale.
pub open spec fn sum_exact(a: (int, nat), b: (int, nat)) -> bool {
    a.0 == 0 || b.0 == 0 || fits_at(units(a) + units(b), max_scale(a, b))
}

/// Whether rust_decimal's checked subtraction of `b` from `a` is exact.
pub open spec fn difference_exact(a: (int, nat), b: (int, nat)) -> bool {
    a.0 == 0 || b.0 == 0 || fits_at(units(a) - units(b), max_scale(a, b))
}

/// Whether rust_decimal's checked multiplication of `a` and `b` is exact.
pub open spec fn product_exact(a: (int, nat), b: (int, nat)) -> bool {
    a.0 == 0 || b.0 == 0 || (a.1 + b.1 <= MAX_SCALE && -(MAX_MANTISSA as int) <= a.0 * b.0
        <= MAX_MANTISSA as int)
}

/// The exact sum, written as rust_decimal writes it: a zero operand gives the other one back,
/// otherwise the sum at the larger scale.
pub open spec fn sum_as_computed(a: (int, nat), b: (int, nat)) -> (int, nat) {
    if a.0 == 0 {
        b
    } else if b.0 == 0 {
        a
    } else {
        at_scale(units(a) + units(b), max_scale(a, b))
    }
}

/// The exact difference, written as rust_decimal writes it.
pub open spec fn difference_as_computed(a: (int, nat), b: (int, nat)) -> (int, nat) {
    if a.0 == 0 {
        (-b.0, b.1)
    } else if b.0 == 0 {
        a
    } else {
        at_scale(units(a) - units(b), max_scale(a, b))
    }
}

/// The exact product, written as rust_decimal writes it: zero at scale 0 for a zero operand,
/// otherwise the product of the mantissas at the sum of the scales.
pub open spec fn product_as_computed(a: (int, nat), b: (int, nat)) -> (int, nat) {
    if a.0 == 0 || b.0 == 0 {
        (0, 0)
    } else {
        (a.0 * b.0, (a.1 + b.1) as nat)
    }
}

/// What the wrappers of `checked_add`, `checked_sub` and `checked_mul` state of rust_decimal,
/// for every pair of representable decimals: a result is representable, and an exact result is
/// given as written above. Laws that rest on rust_decimal's arithmetic take it as a hypothesis.
pub open spec fn exact_decimal_arithmetic() -> bool {
    &&& forall|a: (int, nat), b: (int, nat)|
        representable(a) && representable(b) ==> (#[trigger] decimal_sum(a, b) matches Some(r)
            ==> representable(r)) && (sum_exact(a, b) ==> decimal_sum(a, b) == Some(
            sum_as_computed(a, b),
        ))
    &&& forall|a: (int, nat), b: (int, nat)|
        representable(a) && representable(b) ==> (#[trigger] decimal_difference(a, b) matches Some(
            r,
        ) ==> representable(r)) && (difference_exact(a, b) ==> decimal_difference(a, b) == Some(
            difference_as_computed(a, b),
        ))
    &&& forall|a: (int, nat), b: (int, nat)|
        representable(a) && representable(b) ==> (#[trigger] decimal_product(a, b) matches Some(
            r,
        ) ==> representable(r)) && (product_exact(a, b) ==> decimal_product(a, b) == Some(
            product_as_computed(a, b),
        ))
}

/// A value held exactly at a scale keeps its value when written at that scale.
pub proof fn lemma_at_scale_units(u: int, scale: nat)
    requires
        fits_at(u, scale),
    ensures
        units(at_scale(u, scale)) == u,
        representable(at_scale(u, scale)),
{
    let p = pow10((MAX_SCALE - scale) as nat);
    lemma_pow10_positive((MAX_SCALE - scale) as nat);
    vstd::arithmetic::div_mod::lemma_fundamental_div_mod(u, p);
    assert(p * (u / p) == (u / p) * p) by (nonlinear_arith);
}

/// The exact sum, difference and product have the values of the sum, the difference and the
/// product.
pub proof fn lemma_as_computed_units(a: (int, nat), b: (int, nat))
    requires
        representable(a),
        representable(b),
    ensures
        sum_exact(a, b) ==> units(sum_as_computed(a, b)) == units(a) + units(b) && representable(
            sum_as_computed(a, b),
        ),
        difference_exact(a, b) ==> units(difference_as_computed(a, b)) == units(a) - units(b)
            && representable(difference_as_computed(a, b)),
        a.0 == 1 && a.1 == 0 && product_exact(a, b) ==> product_as_computed(a, b) == (if b.0 == 0 {
            (0int, 0nat)
        } else {
            b
        }),
        a.0 == -1 && a.1 == 0 && product_exact(a, b) ==> product_as_computed(a, b) == (if b.0 == 0 {
            (0int, 0nat)
        } else {
            (-b.0, b.1)
        }),
{
    lemma_units_sign(a);
    lemma_units_sign(b);
    lemma_units_sign((0int, 0nat));
    if a.0 != 0 && b.0 != 0 {
        if fits_at(units(a) + units(b), max_scale(a, b)) {
            lemma_at_scale_units(units(a) + units(b), max_scale(a, b));
        }
        if fits_at(units(a) - units(b), max_scale(a, b)) {
            lemma_at_scale_units(units(a) - units(b), max_scale(a, b));
        }
    }
    let p = pow10((MAX_SCALE - b.1) as nat);
    assert((-b.0) * p == -(b.0 * p)) by (nonlinear_arith);
}

impl View for Decimal {
    type V = (int, nat);

    closed spec fn view(&self) -> (int, nat) {
        (self.mantissa as int, self.scale as nat)
    }
}

impl Decimal {
    #[verifier::type_invariant]
    pub open spec fn well_formed(self) -> bool {
        representable(self@)
    }

    /// The decimal `mantissa / 10^scale`.
    pub fn new(mantissa: i128, scale: u32) -> (r: Decimal)
        requires
            representable((mantissa as int, scale as nat)),
        ensures
            r@ == (mantissa as int, scale as nat),
    {
        Decimal { mantissa, scale }
    }

    pub fn zero() -> (r: Decimal)
        ensures
            r@ == (0int, 0nat),
    {
        Decimal { mantissa: 0, scale: 0 }
    }

    pub fn one() -> (r: Decimal)
        ensures
            r@ == (1int, 0nat),
    {
        Decimal { mantissa: 1, scale: 0 }
    }

    pub fn minus_one() -> (r: Decimal)
        ensures
            r@ == (-1int, 0nat),
    {
        Decimal { mantissa: -1, scale: 0 }
    }

    pub fn one_hundred() -> (r: Decimal)
        ensures
            r@ == (100int, 0nat),
    {
        Decimal { mantissa: 100, scale: 0 }
    }

    pub fn mantissa(&self) -> (r: i128)
        ensures
            r == self@.0,
            representable(self@),
    {
        proof {
            use_type_invariant(self);
        }
        self.mantissa
    }

    pub fn scale(&self) -> (r: u32)
        ensures
            r == self@.1,
            representable(self@),
    {
        proof {
            use_type_invariant(self);
        }
        self.scale
    }

    pub fn is_zero(&self) -> (r: bool)
        ensures
            r == (self@.0 == 0),
    {
        self.mantissa == 0
    }

    pub fn is_negative(&self) -> (r: bool)
        ensures
            r == (self@.0 < 0),
    {
        self.mantissa < 0
    }

    pub fn is_positive(&self) -> (r: bool)
        ensures
            r == (self@.0 > 0),
    {
        self.mantissa > 0
    }
}

/// `rust_decimal::Decimal::checked_add`, on the values the two decimals hold.
///
/// Claims: the result is the one `decimal_sum` names; a zero operand hands the other one back
/// unchanged; for two nonzero operands, whenever the exact sum is held by a mantissa at the
/// larger of the two scales, the result is that exact sum at that scale; and there is a result
/// whenever the exact sum lies within the range of a decimal.
#[verifier::external_body]
pub(crate) fn checked_add(a: &Decimal, b: &Decimal) -> (r: Option<Decimal>)
    ensures
        option_view(r) == decimal_sum(a@, b@),
        a@.0 == 0 ==> option_view(r) == Some(b@),
        a@.0 != 0 && b@.0 == 0 ==> option_view(r) == Some(a@),
        a@.0 != 0 && b@.0 != 0 && fits_at(units(a@) + units(b@), max_scale(a@, b@))
            ==> option_view(r) == Some(at_scale(units(a@) + units(b@), max_scale(a@, b@))),
        fits_at(units(a@) + units(b@), max_scale(a@, b@)) ==> r is Some && units(r->0@) == units(
            a@,
        ) + units(b@),
        within_range(units(a@) + units(b@)) ==> r is Some,
{
    let x = rust_decimal::Decimal::from_i128_with_scale(a.mantissa, a.scale);
    let y = rust_decimal::Decimal::from_i128_with_scale(b.mantissa, b.scale);
    x.checked_add(y).map(|d| Decimal { mantissa: d.mantissa(), scale: d.scale() })
}

/// `rust_decimal::Decimal::checked_sub`, on the values the two decimals hold.
///
/// Claims: the result is the one `decimal_difference` names; `0 - b` is `b` with its sign
/// turned and `a - 0` is `a`, at their own scales; for two nonzero operands, whenever the exact
/// difference is held by a mantissa at the larger of the two scales, the result is that exact
/// difference at that scale; and there is a result whenever the exact difference lies within
/// the range of a decimal.
#[verifier::external_body]
pub(crate) fn checked_sub(a: &Decimal, b: &Decimal) -> (r: Option<Decimal>)
    ensures
        option_view(r) == decimal_difference(a@, b@),
        a@.0 == 0 ==> option_view(r) == Some((-b@.0, b@.1)),
        a@.0 != 0 && b@.0 == 0 ==> option_view(r) == Some(a@),
        a@.0 != 0 && b@.0 != 0 && fits_at(units(a@) - units(b@), max_scale(a@, b@))
            ==> option_view(r) == Some(at_scale(units(a@) - units(b@), max_scale(a@, b@))),
        fits_at(units(a@) - units(b@), max_scale(a@, b@)) ==> r is Some && units(r->0@) == units(
            a@,
        ) - units(b@),
        within_range(units(a@) - units(b@)) ==> r is Some,
{
    let x = rust_decimal::Decimal::from_i128_with_scale(a.mantissa, a.scale);
    let y = rust_decimal::Decimal::from_i128_with_scale(b.mantissa, b.scale);
    x.checked_sub(y).map(|d| Decimal { mantissa: d.mantissa(), scale: d.scale() })
}

/// `rust_decimal::Decimal::checked_mul`, on the values the two decimals hold.
///
/// Claims: the result is the one `decimal_product` names; a zero operand gives zero at scale 0;
/// for two nonzero operands whose mantissas multiply to at most 96 bits and whose scales add up
/// to at most 28, the result is the product of the mantissas at the sum of the scales; and
/// there is a result whenever the product of the mantissas fits in 96 bits (a larger scale is
/// then rounded away). Whether a product beyond 96 bits is refused or rounded is left unsaid.
#[verifier::external_body]
pub(crate) fn checked_mul(a: &Decimal, b: &Decimal) -> (r: Option<Decimal>)
    ensures
        option_view(r) == decimal_product(a@, b@),
        a@.0 == 0 || b@.0 == 0 ==> option_view(r) == Some((0int, 0nat)),
        a@.0 != 0 && b@.0 != 0 && a@.1 + b@.1 <= MAX_SCALE && -(MAX_MANTISSA as int) <= a@.0
            * b@.0 <= MAX_MANTISSA as int ==> option_view(r) == Some(
            (a@.0 * b@.0, (a@.1 + b@.1) as nat),
        ),
        -(MAX_MANTISSA as int) <= a@.0 * b@.0 <= MAX_MANTISSA as int ==> r is Some,
        a@.1 + b@.1 <= MAX_SCALE && -(MAX_MANTISSA as int) <= a@.0 * b@.0 <= MAX_MANTISSA as int
            ==> r is Some && units(r->0@) == a@.0 * b@.0 * pow10(
            (MAX_SCALE - a@.1 - b@.1) as nat,
        ),
{
    let x = rust_decimal::Decimal::from_i128_with_scale(a.mantissa, a.scale);
    let y = rust_decimal::Decimal::from_i128_with_scale(b.mantissa, b.scale);
    x.checked_mul(y).map(|d| Decimal { mantissa: d.mantissa(), scale: d.scale() })
}

/// `rust_decimal::Decimal::checked_div`, on the values the two decimals hold.
///
/// Claims: the result is the one `decimal_quotient` names, and there is none for a zero
/// divisor. How the quotient is rounded is left unsaid.
#[verifier::external_body]
pub(crate) fn checked_div(a: &Decimal, b: &Decimal) -> (r: Option<Decimal>)
    ensures
        option_view(r) == decimal_quotient(a@, b@),
        b@.0 == 0 ==> r is None,
{
    let x = rust_decimal::Decimal::from_i128_with_scale(a.mantissa, a.scale);
    let y = rust_decimal::Decimal::from_i128_with_scale(b.mantissa, b.scale);
    x.checked_div(y).map(|d| Decimal { mantissa: d.mantissa(), scale: d.scale() })
}

/// `<rust_decimal::Decimal as PartialOrd>::lt`: compares the two values.
#[verifier::external_body]
pub(crate) fn lt(a: &Decimal, b: &Decimal) -> (r: bool)
    ensures
        r == (units(a@) < units(b@)),
{
    let x = rust_decimal::Decimal::from_i128_with_scale(a.mantissa, a.scale);
    let y = rust_decimal::Decimal::from_i128_with_scale(b.mantissa, b.scale);
    x < y
}

/// `<rust_decimal::Decimal as PartialEq>::eq`: compares the two values, whatever their scales.
#[verifier::external_body]
pub(crate) fn eq(a: &Decimal, b: &Decimal) -> (r: bool)
    ensures
        r == (units(a@) == units(b@)),
{
    let x = rust_decimal::Decimal::from_i128_with_scale(a.mantissa, a.scale);
    let y = rust_decimal::Decimal::from_i128_with_scale(b.mantissa, b.scale);
    x == y
}

impl PartialEq for Decimal {
    fn eq(&self, other: &Decimal) -> (r: bool) {
        eq(self, other)
    }
}

impl vstd::std_specs::cmp::PartialEqSpecImpl for Decimal {
    open spec fn obeys_eq_spec() -> bool {
        true
    }

    open spec fn eq_spec(&self, other: &Decimal) -> bool {
        units(self@) == units(other@)
    }
}

impl Eq for Decimal {}

/// Why a text was not read as a decimal; the variants are those of `rust_decimal::Error`.
#[derive(Debug, Clone, PartialEq, Eq)]
pub enum DecimalError {
    ErrorString(String),
    ExceedsMaximumPossibleValue,
    LessThanMinimumPossibleValue,
    Underflow,
    ScaleExceedsMaximumPrecision(u32),
    ConversionTo(String),
}

/// `<rust_decimal::Decimal as FromStr>::from_str`.
///
/// Claims: it reads a value exactly when `decimal_parse` names one, and then that value. Which
/// error it reports for a refused text is left unsaid.
#[verifier::external_body]
fn parse(text: &str) -> (r: Result<Decimal, DecimalError>)
    ensures
        match r {
            Ok(d) => decimal_parse(text@) == Some(d@),
            Err(_) => decimal_parse(text@) is None,
        },
{
    match <rust_decimal::Decimal as core::str::FromStr>::from_str(text) {
        Ok(d) => Ok(Decimal { mantissa: d.mantissa(), scale: d.scale() }),
        Err(rust_decimal::Error::ErrorString(s)) => Err(DecimalError::ErrorString(s)),
        Err(rust_decimal::Error::ExceedsMaximumPossibleValue) => Err(
            DecimalError::ExceedsMaximumPossibleValue,
        ),
        Err(rust_decimal::Error::LessThanMinimumPossibleValue) => Err(
            DecimalError::LessThanMinimumPossibleValue,
        ),
        Err(rust_decimal::Error::Underflow) => Err(DecimalError::Underflow),
        Err(rust_decimal::Error::ScaleExceedsMaximumPrecision(s)) => Err(
            DecimalError::ScaleExceedsMaximumPrecision(s),
        ),
        Err(rust_decimal::Error::ConversionTo(s)) => Err(DecimalError::ConversionTo(s)),
    }
}

/// Reads a decimal written in base ten, such as `"12.025"` or `"-3"`.
pub fn decimal(value: &str) -> (r: Result<Decimal, DecimalError>)
    ensures
        match r {
            Ok(d) => decimal_parse(value@) == Some(d@),
            Err(_) => decimal_parse(value@) is None,
        },
{
    parse(value)
}

/// The smaller of two decimals; the first one when they are equal in value.
pub fn min(a: &Decimal, b: &Decimal) -> (r: Decimal)
    ensures
        r@ == (if units(b@) < units(a@) {
            b@
        } else {
            a@
        }),
{
    if lt(b, a) {
        *b
    } else {
        *a
    }
}

/// The decimal digits of `n`, most significant first; none for zero.
pub open spec fn digits(n: nat) -> Seq<char>
    decreases n,
{
    if n == 0 {
        Seq::empty()
    } else {
        digits(n / 10).push((48 + n % 10) as char)
    }
}

/// How `rust_decimal` writes a value with `Display`: a minus sign for a negative mantissa, the
/// digits of the mantissa padded with leading zeros to at least the scale, a `0` when no digit
/// is left before the point, and the point before the last `scale` digits.
pub open spec fn decimal_display(v: (int, nat)) -> Seq<char> {
    let m: nat = if v.0 < 0 {
        (-v.0) as nat
    } else {
        v.0 as nat
    };
    let ds = if digits(m).len() >= v.1 {
        digits(m)
    } else {
        Seq::new((v.1 - digits(m).len()) as nat, |i: int| '0') + digits(m)
    };
    let split = ds.len() - v.1;
    let whole = if split == 0 {
        seq!['0']
    } else {
        ds.subrange(0, split)
    };
    let fraction = if v.1 == 0 {
        Seq::empty()
    } else {
        seq!['.'] + ds.subrange(split, ds.len() as int)
    };
    (if v.0 < 0 {
        seq!['-']
    } else {
        Seq::empty()
    }) + whole + fraction
}

/// What `rust_decimal::Decimal::round_dp` gives: a value with at most `dp` places is kept as it
/// is; otherwise the magnitude is rounded to `dp` places, half to even, and the sign kept.
pub open spec fn decimal_round_dp(v: (int, nat), dp: u32) -> (int, nat) {
    if v.1 <= dp {
        v
    } else {
        let p = pow10((v.1 - dp) as nat);
        let m = if v.0 < 0 {
            -v.0
        } else {
            v.0
        };
        let q = m / p;
        let rest = m % p;
        let rounded = if 2 * rest > p || (2 * rest == p && q % 2 == 1) {
            q + 1
        } else {
            q
        };
        (
            if v.0 < 0 {
                -rounded
            } else {
                rounded
            },
            dp as nat,
        )
    }
}

/// What `rust_decimal::Decimal::normalize` gives: zero at scale 0, or the value with its
/// trailing zeros stripped from the mantissa as long as the scale allows.
pub open spec fn decimal_normalize(v: (int, nat)) -> (int, nat)
    decreases v.1,
{
    if v.0 == 0 {
        (0, 0)
    } else if v.1 > 0 && v.0 % 10 == 0 {
        decimal_normalize((v.0 / 10, (v.1 - 1) as nat))
    } else {
        v
    }
}

/// `<rust_decimal::Decimal as Display>::fmt`, without a precision.
///
/// Claims: the text is the one `decimal_display` states for the value's mantissa and scale
/// (the value is built from its mantissa, so a zero is never written with a minus sign).
#[verifier::external_body]
pub(crate) fn decimal_text(d: &Decimal) -> (r: String)
    ensures
        r@ == decimal_display(d@),
{
    rust_decimal::Decimal::from_i128_with_scale(d.mantissa, d.scale).to_string()
}

/// `rust_decimal::Decimal::round_dp`: rounds half to even to at most `dp` decimal places.
///
/// Claims: the result is the one `decimal_round_dp` states.
#[verifier::external_body]
pub(crate) fn round_dp(d: &Decimal, dp: u32) -> (r: Decimal)
    ensures
        r@ == decimal_round_dp(d@, dp),
{
    let x = rust_decimal::Decimal::from_i128_with_scale(d.mantissa, d.scale).round_dp(dp);
    Decimal { mantissa: x.mantissa(), scale: x.scale() }
}

/// `rust_decimal::Decimal::normalize`: strips trailing zeros.
///
/// Claims: the result is the one `decimal_normalize` states, and it has the same value.
#[verifier::external_body]
pub(crate) fn normalize(d: &Decimal) -> (r: Decimal)
    ensures
        r@ == decimal_normalize(d@),
        units(r@) == units(d@),
{
    let x = rust_decimal::Decimal::from_i128_with_scale(d.mantissa, d.scale).normalize();
    Decimal { mantissa: x.mantissa(), scale: x.scale() }
}

} // verus!
