//! Option-chain vocabulary and the diagnostics kept while ingesting a chain.

use vstd::prelude::*;
use vstd::string::*;

use crate::text::{chars_between, chars_of, is_ascii_digit, string_from, trim, trimmed};
use crate::time::{is_calendar_day, is_month_day, two_digits, CalendarDate};

verus! {

/// Whether the time zone of a provider's timestamp was checked.
#[derive(Debug, Clone, Copy, PartialEq, Eq, Structural)]
pub enum ProviderTimestampTimezone {
    VerifiedOffset,
    Unverified,
}

/// A timestamp as the provider wrote it.
#[derive(Debug, Clone, PartialEq, Eq)]
pub struct ProviderTimestamp {
    pub raw: String,
    pub timezone: ProviderTimestampTimezone,
}

/// Something noticed, though not refused, while ingesting a chain.
#[derive(Debug, Clone, PartialEq, Eq)]
pub enum OptionIngestionWarning {
    ProviderTimestampTimezoneUnverified,
    ContractSpecificationUnavailable { root: String },
}

pub const INVALID_OCC_SYMBOL_SAMPLE_LIMIT: usize = 20;

pub const INGESTION_WARNING_SAMPLE_LIMIT: usize = 50;

pub const DIAGNOSTIC_TEXT_LIMIT: usize = 128;

/// What went wrong while ingesting a chain: counts of every occurrence and a bounded sample
/// of each kind.
#[derive(Debug, Clone, PartialEq, Eq)]
pub struct OptionIngestionDiagnostics {
    pub invalid_occ_symbol_count: u64,
    pub invalid_occ_symbol_samples: Vec<String>,
    pub warning_count: u64,
    pub warnings: Vec<OptionIngestionWarning>,
}

/// A count that stops at the largest `u64`.
pub open spec fn saturating_next(n: u64) -> u64 {
    if n == u64::MAX {
        n
    } else {
        (n + 1) as u64
    }
}

/// The text kept of a diagnostic: its first `DIAGNOSTIC_TEXT_LIMIT` characters.
pub open spec fn bounded_text(value: Seq<char>) -> Seq<char> {
    if value.len() <= DIAGNOSTIC_TEXT_LIMIT {
        value
    } else {
        value.take(DIAGNOSTIC_TEXT_LIMIT as int)
    }
}

/// The warning kept as a sample: a root is cut to the diagnostic text limit.
pub open spec fn bounded_warning(w: OptionIngestionWarning, kept: OptionIngestionWarning) -> bool {
    match w {
        OptionIngestionWarning::ProviderTimestampTimezoneUnverified => kept
            == OptionIngestionWarning::ProviderTimestampTimezoneUnverified,
        OptionIngestionWarning::ContractSpecificationUnavailable { root } => kept matches OptionIngestionWarning::ContractSpecificationUnavailable {
            root: r,
        } && r@ == bounded_text(root@),
    }
}

impl Default for OptionIngestionDiagnostics {
    fn default() -> (r: Self)
        ensures
            r.invalid_occ_symbol_count == 0,
            r.invalid_occ_symbol_samples@.len() == 0,
            r.warning_count == 0,
            r.warnings@.len() == 0,
    {
        OptionIngestionDiagnostics {
            invalid_occ_symbol_count: 0,
            invalid_occ_symbol_samples: Vec::new(),
            warning_count: 0,
            warnings: Vec::new(),
        }
    }
}

impl OptionIngestionDiagnostics {
    /// Counts an OCC symbol that could not be read, and keeps it, cut to the text limit, while
    /// fewer than `INVALID_OCC_SYMBOL_SAMPLE_LIMIT` are kept.
    pub fn record_invalid_occ_symbol(&mut self, symbol: String)
        ensures
            final(self).invalid_occ_symbol_count == saturating_next(old(self).invalid_occ_symbol_count),
            old(self).invalid_occ_symbol_samples@.len() < INVALID_OCC_SYMBOL_SAMPLE_LIMIT ==> {
                &&& final(self).invalid_occ_symbol_samples@.len() == old(self).invalid_occ_symbol_samples@.len() + 1
                &&& final(self).invalid_occ_symbol_samples@.drop_last() == old(self).invalid_occ_symbol_samples@
                &&& final(self).invalid_occ_symbol_samples@.last()@ == bounded_text(symbol@)
            },
            old(self).invalid_occ_symbol_samples@.len() >= INVALID_OCC_SYMBOL_SAMPLE_LIMIT
                ==> final(self).invalid_occ_symbol_samples@ == old(self).invalid_occ_symbol_samples@,
            final(self).warning_count == old(self).warning_count,
            final(self).warnings@ == old(self).warnings@,
    {
        self.invalid_occ_symbol_count = self.invalid_occ_symbol_count.saturating_add(1);
        if self.invalid_occ_symbol_samples.len() < INVALID_OCC_SYMBOL_SAMPLE_LIMIT {
            self.invalid_occ_symbol_samples.push(bounded_diagnostic_text(symbol));
        }
    }

    /// Counts a warning, and keeps it, with a root cut to the text limit, while fewer than
    /// `INGESTION_WARNING_SAMPLE_LIMIT` are kept.
    pub fn record_warning(&mut self, warning: OptionIngestionWarning)
        ensures
            final(self).warning_count == saturating_next(old(self).warning_count),
            old(self).warnings@.len() < INGESTION_WARNING_SAMPLE_LIMIT ==> {
                &&& final(self).warnings@.len() == old(self).warnings@.len() + 1
                &&& final(self).warnings@.drop_last() == old(self).warnings@
                &&& bounded_warning(warning, final(self).warnings@.last())
            },
            old(self).warnings@.len() >= INGESTION_WARNING_SAMPLE_LIMIT ==> final(self).warnings@
                == old(self).warnings@,
            final(self).invalid_occ_symbol_count == old(self).invalid_occ_symbol_count,
            final(self).invalid_occ_symbol_samples@ == old(self).invalid_occ_symbol_samples@,
    {
        self.warning_count = self.warning_count.saturating_add(1);
        if self.warnings.len() < INGESTION_WARNING_SAMPLE_LIMIT {
            let kept = match warning {
                OptionIngestionWarning::ContractSpecificationUnavailable { root } => {
                    OptionIngestionWarning::ContractSpecificationUnavailable {
                        root: bounded_diagnostic_text(root),
                    }
                },
                OptionIngestionWarning::ProviderTimestampTimezoneUnverified => {
                    OptionIngestionWarning::ProviderTimestampTimezoneUnverified
                },
            };
            self.warnings.push(kept);
        }
    }

    /// Whether nothing was recorded.
    pub fn is_empty(&self) -> (r: bool)
        ensures
            r == (self.invalid_occ_symbol_count == 0 && self.invalid_occ_symbol_samples@.len() == 0
                && self.warning_count == 0 && self.warnings@.len() == 0),
    {
        self.invalid_occ_symbol_count == 0 && self.invalid_occ_symbol_samples.len() == 0
            && self.warning_count == 0 && self.warnings.len() == 0
    }
}

/// The first `DIAGNOSTIC_TEXT_LIMIT` characters of a diagnostic text.
pub fn bounded_diagnostic_text(value: String) -> (r: String)
    ensures
        r@ == bounded_text(value@),
{
    let chars = chars_of(value.as_str());
    if chars.len() <= DIAGNOSTIC_TEXT_LIMIT {
        return value;
    }
    let mut r = String::new();
    for i in 0..DIAGNOSTIC_TEXT_LIMIT
        invariant
            chars@ == value@,
            chars@.len() > DIAGNOSTIC_TEXT_LIMIT,
            r@ == value@.take(i as int),
    {
        r.push(chars[i]);
        proof {
            assert(value@.take(i + 1) =~= value@.take(i as int).push(value@[i as int]));
        }
    }
    r
}

#[derive(Debug, Clone, Copy, PartialEq, Eq, Structural)]
pub enum OptionType {
    Call,
    Put,
}

impl OptionType {
    /// The name the type is shown with.
    pub fn label(&self) -> (r: &'static str)
        ensures
            r@ == match self {
                OptionType::Call => "Call"@,
                OptionType::Put => "Put"@,
            },
    {
        match self {
            OptionType::Call => "Call",
            OptionType::Put => "Put",
        }
    }
}

/// An OCC option symbol that could not be read.
#[derive(Debug, Clone, Copy, PartialEq, Eq, Structural)]
pub struct OccSymbolError;

impl OccSymbolError {
    /// The text the error is shown with.
    pub fn message(&self) -> (r: &'static str)
        ensures
            r@ == "invalid OCC option symbol"@,
    {
        "invalid OCC option symbol"
    }
}

/// The fields of an OCC option symbol: the root, the expiration, the type and the
/// eight-character strike field (the strike in thousandths, read as a number by
/// the caller).
#[derive(Debug, Clone, PartialEq, Eq)]
pub struct OccFields {
    pub root: String,
    pub expiration: CalendarDate,
    pub option_type: OptionType,
    pub strike_field: String,
}

/// The day chrono reads from a text with the pattern `%y%m%d`, if it reads one.
pub uninterp spec fn yymmdd_date(text: Seq<char>) -> Option<CalendarDate>;

/// The year that chrono reads from the two digits of `%y`: 1970 to 1999 for 70 to
/// 99, 2000 to 2069 otherwise.
pub open spec fn two_digit_year(yy: int) -> int {
    if yy < 70 {
        2000 + yy
    } else {
        1900 + yy
    }
}

/// Six ASCII digits.
pub open spec fn six_digits(s: Seq<char>) -> bool {
    s.len() == 6 && forall|i: int| 0 <= i < 6 ==> is_ascii_digit(#[trigger] s[i])
}

/// The year, month and day that six digits write as `%y%m%d`.
pub open spec fn yymmdd_fields(s: Seq<char>) -> (int, int, int) {
    (two_digit_year(two_digits(s[0], s[1])), two_digits(s[2], s[3]), two_digits(s[4], s[5]))
}

/// Calls chrono's `NaiveDate::parse_from_str` with the pattern `%y%m%d` and counts
/// the day read from 0001-01-01. The contract names the day read, and states it
/// for a text of six ASCII digits: two each of year, month and day, read as a day
/// when the month and day exist in that year, and refused otherwise. Which other
/// texts chrono accepts is not stated.
#[verifier::external_body]
fn parse_yymmdd(text: &str) -> (r: Option<CalendarDate>)
    ensures
        r == yymmdd_date(text@),
        r matches Some(d) ==> d.is_valid(),
        six_digits(text@) ==> match r {
            Some(d) => is_calendar_day(
                d.days_from_ce as int,
                yymmdd_fields(text@).0,
                yymmdd_fields(text@).1,
                yymmdd_fields(text@).2,
            ),
            None => !is_month_day(yymmdd_fields(text@).0, yymmdd_fields(text@).1, yymmdd_fields(text@).2),
        },
{
    chrono::NaiveDate::parse_from_str(text, "%y%m%d").ok().map(
        |d| CalendarDate { days_from_ce: chrono::Datelike::num_days_from_ce(&d) },
    )
}

/// An OCC symbol's shape: a root of at least one character, then fifteen ASCII
/// characters (six of date, the type `C` or `P`, eight of strike).
pub open spec fn occ_shaped(s: Seq<char>) -> bool {
    &&& s.len() >= 16
    &&& forall|i: int| s.len() - 15 <= i < s.len() ==> (s[i] as u32) < 128
    &&& (s[s.len() - 9] == 'C' || s[s.len() - 9] == 'P')
}

/// Everything before the last fifteen characters.
pub open spec fn occ_root_field(s: Seq<char>) -> Seq<char> {
    s.subrange(0, s.len() - 15)
}

/// The six characters of the expiration.
pub open spec fn occ_date_field(s: Seq<char>) -> Seq<char> {
    s.subrange(s.len() - 15, s.len() - 9)
}

/// The character of the type.
pub open spec fn occ_type_field(s: Seq<char>) -> Seq<char> {
    s.subrange(s.len() - 9, s.len() - 8)
}

/// The last eight characters, the strike in thousandths.
pub open spec fn occ_strike_field(s: Seq<char>) -> Seq<char> {
    s.subrange(s.len() - 8, s.len() as int)
}

/// Reads an OCC option symbol: the root is what precedes the last fifteen
/// characters, trimmed; then come the expiration as `%y%m%d`, the type `C` (call)
/// or `P` (put) and the strike field. A symbol of fewer than sixteen bytes, or
/// whose last fifteen bytes do not start at a character, is refused; so is one
/// whose last fifteen characters are not all ASCII (a symbol whose type or strike
/// field would then be cut inside a character is refused here rather than
/// panicking; any other such symbol has a date or strike field no reader accepts).
pub fn parse_occ_symbol(symbol: &str) -> (r: Result<OccFields, OccSymbolError>)
    ensures
        r is Ok <==> occ_shaped(symbol@) && yymmdd_date(occ_date_field(symbol@)) is Some,
        match r {
            Ok(f) => {
                &&& f.root@ == trimmed(occ_root_field(symbol@))
                &&& Some(f.expiration) == yymmdd_date(occ_date_field(symbol@))
                &&& (f.option_type == OptionType::Call <==> occ_type_field(symbol@) == "C"@)
                &&& f.strike_field@ == occ_strike_field(symbol@)
            },
            Err(_) => true,
        },
        occ_shaped(symbol@) && six_digits(occ_date_field(symbol@)) ==> {
            let (y, m, d) = yymmdd_fields(occ_date_field(symbol@));
            &&& (r is Ok <==> is_month_day(y, m, d))
            &&& (r matches Ok(f) ==> is_calendar_day(f.expiration.days_from_ce as int, y, m, d))
        },
{
    proof {
        reveal_strlit("C");
    }
    let chars = chars_of(symbol);
    let n = chars.len();
    if n < 16 {
        return Err(OccSymbolError);
    }
    let mut i: usize = n - 15;
    while i < n
        invariant
            n - 15 <= i <= n,
            n == chars@.len(),
            chars@ == symbol@,
            forall|k: int| n - 15 <= k < i ==> (chars@[k] as u32) < 128,
        decreases n - i,
    {
        if (chars[i] as u32) >= 128 {
            return Err(OccSymbolError);
        }
        i = i + 1;
    }
    let type_char = chars[n - 9];
    let option_type = if type_char == 'C' {
        OptionType::Call
    } else if type_char == 'P' {
        OptionType::Put
    } else {
        return Err(OccSymbolError);
    };
    let date_field = string_from(&chars_between(&chars, n - 15, n - 9));
    let expiration = match parse_yymmdd(date_field.as_str()) {
        Some(d) => d,
        None => return Err(OccSymbolError),
    };
    let root = string_from(&trim(&chars_between(&chars, 0, n - 15)));
    let strike_field = string_from(&chars_between(&chars, n - 8, n));
    proof {
        assert(occ_type_field(symbol@) =~= seq![type_char]);
        assert("C"@ =~= seq!['C']);
        assert(occ_date_field(symbol@) == date_field@);
        assert(occ_strike_field(symbol@) =~= strike_field@);
        assert(occ_root_field(symbol@) =~= chars@.subrange(0, n - 15));
        if type_char != 'C' {
            assert(occ_type_field(symbol@)[0] != "C"@[0]);
        }
    }
    Ok(OccFields { root, expiration, option_type, strike_field })
}

} // verus!
