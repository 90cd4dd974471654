//! Rules about option roots used when building volatility term structures.

use vstd::prelude::*;
use vstd::string::*;

use crate::text::{chars_of, eq_ignore_ascii_case, is_ascii_digit, same_ignoring_ascii_case, string_from, ascii_digit};
use crate::time::CalendarDate;

verus! {

/// Whether a root names an adjusted contract: it ends in an ASCII digit.
pub open spec fn spec_is_adjusted_root(root: Seq<char>) -> bool {
    root.len() > 0 && is_ascii_digit(root.last())
}

pub fn is_adjusted_root(root: &str) -> (r: bool)
    ensures
        r == spec_is_adjusted_root(root@),
{
    let chars = chars_of(root);
    chars.len() > 0 && ascii_digit(chars[chars.len() - 1])
}

/// Whether options of a root settle at the close: all but the standard `SPX` (ignoring
/// ASCII case), which settles in the morning.
pub fn is_pm_settlement(root: &str) -> (r: bool)
    ensures
        r == !eq_ignore_ascii_case(root@, "SPX"@),
{
    !same_ignoring_ascii_case(root, "SPX")
}

/// Whether a day is a Friday (0001-01-01, day 1, was a Monday).
pub open spec fn is_friday(date: CalendarDate) -> bool {
    (date.days_from_ce - 1) % 7 == 4
}

pub fn friday(date: CalendarDate) -> (r: bool)
    ensures
        r == is_friday(date),
{
    let shifted: i64 = date.days_from_ce as i64 - 1 + 2_800_000_000;
    proof {
        vstd::arithmetic::div_mod::lemma_mod_multiples_vanish(400_000_000, date.days_from_ce - 1, 7);
        assert(7 * 400_000_000 + (date.days_from_ce - 1) == shifted);
    }
    shifted % 7 == 4
}

/// The primary root of a weekly variant: the root without a final `W` or `w`, where that
/// leaves something.
pub open spec fn primary_root(root: Seq<char>) -> Option<Seq<char>> {
    if root.len() > 1 && (root.last() == 'W' || root.last() == 'w') {
        Some(root.drop_last())
    } else {
        None
    }
}

/// Whether a maturity may stand in the constant-maturity series: it expires on a Friday, and
/// a weekly variant gives way to its primary root expiring the same day.
pub open spec fn spec_is_eligible_constant_maturity(
    expiration: CalendarDate,
    root: Seq<char>,
    maturities: Seq<(CalendarDate, Seq<char>)>,
) -> bool {
    &&& is_friday(expiration)
    &&& match primary_root(root) {
        None => true,
        Some(primary) => !exists|i: int|
            0 <= i < maturities.len() && eq_ignore_ascii_case(#[trigger] maturities[i].1, primary)
                && maturities[i].0 == expiration,
    }
}

/// The expiration and root of each maturity, as plain values.
pub open spec fn maturity_values(maturities: Seq<(CalendarDate, String)>) -> Seq<(CalendarDate, Seq<char>)> {
    maturities.map_values(|m: (CalendarDate, String)| (m.0, m.1@))
}

pub fn is_eligible_constant_maturity(
    expiration: CalendarDate,
    root: &str,
    maturities: &Vec<(CalendarDate, String)>,
) -> (r: bool)
    ensures
        r == spec_is_eligible_constant_maturity(expiration, root@, maturity_values(maturities@)),
{
    if !friday(expiration) {
        return false;
    }
    let chars = chars_of(root);
    let n = chars.len();
    if !(n > 1 && (chars[n - 1] == 'W' || chars[n - 1] == 'w')) {
        return true;
    }
    let mut primary_chars = chars.clone();
    primary_chars.pop();
    proof {
        assert(primary_chars@ =~= root@.drop_last());
    }
    let primary = string_from(&primary_chars);
    let ghost values = maturity_values(maturities@);
    for i in 0..maturities.len()
        invariant
            values == maturity_values(maturities@),
            primary_root(root@) == Some(primary@),
            forall|k: int|
                0 <= k < i ==> !(eq_ignore_ascii_case(#[trigger] values[k].1, primary@) && values[k].0
                    == expiration),
    {
        if same_ignoring_ascii_case(maturities[i].1.as_str(), primary.as_str()) && maturities[i].0 == expiration {
            proof {
                assert(values[i as int].1 == maturities@[i as int].1@);
                assert(eq_ignore_ascii_case(values[i as int].1, primary@) && values[i as int].0 == expiration);
            }
            return false;
        }
    }
    true
}

} // verus!
