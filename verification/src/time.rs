//! Points in time and calendar days, held as plain integers.

use vstd::prelude::*;

verus! {

/// An instant on the UTC time line, in microseconds since 1970-01-01T00:00:00Z.
#[derive(Debug, Clone, Copy, PartialEq, Eq, Hash, Structural)]
pub struct UtcInstant {
    pub micros: i64,
}

/// A calendar day of the proleptic Gregorian calendar, counted so that
/// 0001-01-01 is day 1.
#[derive(Debug, Clone, Copy, PartialEq, Eq, Hash, Structural)]
pub struct CalendarDate {
    pub days_from_ce: i32,
}

/// The first and last day that a calendar date can name (-262143-01-01 and +262142-12-31).
pub const MIN_DAYS_FROM_CE: i32 = -95_746_129;

pub const MAX_DAYS_FROM_CE: i32 = 95_745_399;

impl CalendarDate {
    pub open spec fn is_valid(self) -> bool {
        MIN_DAYS_FROM_CE <= self.days_from_ce <= MAX_DAYS_FROM_CE
    }
}

/// Whether a year of the proleptic Gregorian calendar has 366 days.
pub open spec fn is_leap_year(y: int) -> bool {
    (y % 4 == 0 && y % 100 != 0) || y % 400 == 0
}

/// The days from 0001-01-01 to January 1 of year `y` (negative before year 1).
pub open spec fn days_before_year(y: int) -> int {
    365 * (y - 1) + (y - 1) / 4 - (y - 1) / 100 + (y - 1) / 400
}

/// The number of days of month `m` (1 to 12) of year `y`.
pub open spec fn month_length(y: int, m: int) -> int {
    if m == 2 {
        if is_leap_year(y) {
            29
        } else {
            28
        }
    } else if m == 4 || m == 6 || m == 9 || m == 11 {
        30
    } else {
        31
    }
}

/// The days of year `y` before the first of month `m`.
pub open spec fn days_before_month(y: int, m: int) -> int
    decreases m,
{
    if m <= 1 {
        0
    } else {
        days_before_month(y, m - 1) + month_length(y, m - 1)
    }
}

/// Whether a month and a day of it name a day of year `y`.
pub open spec fn is_month_day(y: int, month: int, day: int) -> bool {
    1 <= month <= 12 && 1 <= day <= month_length(y, month)
}

/// Whether day `days` (0001-01-01 being day 1) is day `day` of month `month` of year `y`.
pub open spec fn is_calendar_day(days: int, y: int, month: int, day: int) -> bool {
    is_month_day(y, month, day) && days == days_before_year(y) + days_before_month(y, month) + day
}

/// Whether day `days` (0001-01-01 being day 1) falls in year `y`.
pub open spec fn in_calendar_year(days: int, y: int) -> bool {
    days_before_year(y) < days <= days_before_year(y + 1)
}

/// The number two ASCII digits write.
pub open spec fn two_digits(tens: char, units: char) -> int {
    (tens as int - 48) * 10 + (units as int - 48)
}

/// `a` divided by `d`, rounded towards minus infinity.
pub fn floor_div(a: i64, d: i64) -> (r: i64)
    requires
        d > 0,
    ensures
        r == a as int / d as int,
{
    if a >= 0 {
        let q = a / d;
        proof {
            assert(q == a as int / d as int) by (nonlinear_arith)
                requires
                    a >= 0,
                    d > 0,
                    q == a / d,
            ;
        }
        q
    } else {
        let b: i64 = -(a + 1);
        let q = b / d;
        proof {
            assert(-q - 1 == a as int / d as int) by (nonlinear_arith)
                requires
                    b >= 0,
                    d > 0,
                    q == b / d,
                    b == -(a + 1),
            {
                let k = b / d;
                let m = b % d;
                assert(b == d * k + m);
                assert(0 <= m < d);
                assert(a == d * (-k - 1) + (d - 1 - m));
                vstd::arithmetic::div_mod::lemma_fundamental_div_mod_converse(
                    a as int,
                    d as int,
                    -k - 1,
                    d - 1 - m,
                );
            }
        }
        -q - 1
    }
}

/// The year of the proleptic Gregorian calendar that a day falls in, as chrono
/// counts it.
pub uninterp spec fn calendar_year(days_from_ce: i32) -> i32;

/// Calls chrono's `NaiveDate::from_num_days_from_ce_opt` and `Datelike::year`.
/// The contract names the year, and states it: the year of the proleptic
/// Gregorian calendar that the day falls in.
#[verifier::external_body]
pub(crate) fn year_of(d: CalendarDate) -> (r: i32)
    requires
        d.is_valid(),
    ensures
        r == calendar_year(d.days_from_ce),
        in_calendar_year(d.days_from_ce as int, r as int),
{
    chrono::Datelike::year(&chrono::NaiveDate::from_num_days_from_ce_opt(d.days_from_ce).unwrap())
}

/// Each day comes strictly after the one before it.
pub open spec fn strictly_ascending_days(s: Seq<CalendarDate>) -> bool {
    forall|i: int, j: int| 0 <= i < j < s.len() ==> #[trigger] s[i].days_from_ce < #[trigger] s[j].days_from_ce
}

/// Adds a day to days kept in calendar order, each once.
fn insert_day_sorted(v: &mut Vec<CalendarDate>, d: CalendarDate)
    requires
        strictly_ascending_days(old(v)@),
    ensures
        strictly_ascending_days(final(v)@),
        final(v)@.to_set() == old(v)@.to_set().insert(d),
{
    let ghost before = v@;
    let mut i: usize = 0;
    while i < v.len() && v[i].days_from_ce < d.days_from_ce
        invariant
            i <= v@.len(),
            v@ == before,
            strictly_ascending_days(before),
            forall|k: int| 0 <= k < i ==> #[trigger] before[k].days_from_ce < d.days_from_ce,
        decreases v.len() - i,
    {
        i = i + 1;
    }
    if i < v.len() && v[i].days_from_ce == d.days_from_ce {
        proof {
            assert(before[i as int] == d);
            assert(before.to_set().insert(d) =~= before.to_set());
        }
        return;
    }
    v.insert(i, d);
    proof {
        let after = v@;
        assert(after =~= before.insert(i as int, d));
        assert forall|a: int, b: int| 0 <= a < b < after.len() implies #[trigger] after[a].days_from_ce
            < #[trigger] after[b].days_from_ce by {
            if b < i {
                assert(before[a].days_from_ce < before[b].days_from_ce);
            } else if b == i {
                assert(before[a].days_from_ce < d.days_from_ce);
            } else if a > i {
                assert(before[a - 1].days_from_ce < before[b - 1].days_from_ce);
            } else if a == i {
                assert(before[b - 1].days_from_ce >= before[i as int].days_from_ce);
            } else {
                assert(before[a].days_from_ce < d.days_from_ce);
                assert(before[b - 1].days_from_ce >= before[i as int].days_from_ce);
            }
        }
        assert(after.to_set() =~= before.to_set().insert(d)) by {
            assert forall|x: CalendarDate| after.to_set().contains(x) <==> before.to_set().insert(d).contains(x) by {
                if after.to_set().contains(x) {
                    let k = choose|k: int| 0 <= k < after.len() && after[k] == x;
                    if k < i {
                        assert(before[k] == x);
                    } else if k > i {
                        assert(before[k - 1] == x);
                    }
                }
                if before.to_set().contains(x) {
                    let k = choose|k: int| 0 <= k < before.len() && before[k] == x;
                    if k < i {
                        assert(after[k] == x);
                    } else {
                        assert(after[k + 1] == x);
                    }
                }
                if x == d {
                    assert(after[i as int] == x);
                }
            }
        }
    }
}

/// The days, each once, in calendar order.
pub fn distinct_days(dates: &[CalendarDate]) -> (r: Vec<CalendarDate>)
    ensures
        strictly_ascending_days(r@),
        r@.to_set() == dates@.to_set(),
{
    let mut out: Vec<CalendarDate> = Vec::new();
    proof {
        assert(dates@.subrange(0, 0).to_set() =~= out@.to_set());
    }
    let mut j: usize = 0;
    while j < dates.len()
        invariant
            j <= dates@.len(),
            strictly_ascending_days(out@),
            out@.to_set() == dates@.subrange(0, j as int).to_set(),
        decreases dates.len() - j,
    {
        insert_day_sorted(&mut out, dates[j]);
        proof {
            assert(dates@.subrange(0, j + 1) =~= dates@.subrange(0, j as int).push(dates@[j as int]));
            dates@.subrange(0, j as int).lemma_push_to_set_commute(dates@[j as int]);
        }
        j = j + 1;
    }
    proof {
        assert(dates@.subrange(0, dates@.len() as int) =~= dates@);
    }
    out
}

} // verus!
