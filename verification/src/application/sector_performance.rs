//! Sector performance use case.

use vstd::prelude::*;

use crate::application::data_refresh::QuoteDay;
use crate::time::CalendarDate;

verus! {

/// Compares the sector funds with the benchmark over trading sessions.
pub struct SectorPerformanceApplication<MarketHistory, TradingCalendar> {
    market_history: MarketHistory,
    trading_calendar: TradingCalendar,
}

impl<MarketHistory, TradingCalendar> SectorPerformanceApplication<MarketHistory, TradingCalendar> {
    /// The collaborators the use case was built with, in the order `new` takes them.
    pub closed spec fn parts(&self) -> (MarketHistory, TradingCalendar) {
        (self.market_history, self.trading_calendar)
    }

    pub fn new(market_history: MarketHistory, trading_calendar: TradingCalendar) -> (r: Self)
        ensures
            r.parts() == (market_history, trading_calendar),
    {
        SectorPerformanceApplication { market_history, trading_calendar }
    }
}

/// A quote that a return can be measured from: it has a usable closing price and
/// is not dated after `as_of`.
pub open spec fn usable_quote(q: QuoteDay, as_of: CalendarDate) -> bool {
    q.date.days_from_ce <= as_of.days_from_ce && q.has_price
}

/// The positions of the usable quotes, in the order the history holds them.
pub open spec fn usable_positions(quotes: Seq<QuoteDay>, as_of: CalendarDate) -> Seq<int>
    decreases quotes.len(),
{
    if quotes.len() == 0 {
        Seq::empty()
    } else {
        usable_positions(quotes.drop_last(), as_of) + if usable_quote(quotes.last(), as_of) {
            seq![quotes.len() - 1]
        } else {
            Seq::<int>::empty()
        }
    }
}

/// The first usable quote dated `day`, if any.
pub open spec fn first_usable_on(quotes: Seq<QuoteDay>, as_of: CalendarDate, day: CalendarDate) -> Option<int>
    decreases quotes.len(),
{
    if quotes.len() == 0 {
        None
    } else {
        match first_usable_on(quotes.drop_last(), as_of, day) {
            Some(i) => Some(i),
            None => if usable_quote(quotes.last(), as_of) && quotes.last().date == day {
                Some(quotes.len() - 1)
            } else {
                None
            },
        }
    }
}

/// The trailing window of `sessions` sessions: the quote `sessions` usable quotes
/// before the last usable one, and that last one.
pub open spec fn spec_trailing_window(quotes: Seq<QuoteDay>, sessions: nat, as_of: CalendarDate) -> Option<(int, int)> {
    let u = usable_positions(quotes, as_of);
    if u.len() >= sessions + 1 {
        Some((u[u.len() - sessions - 1], u[u.len() - 1]))
    } else {
        None
    }
}

/// The positions of the usable quotes up to `as_of`, in order.
fn usable_quote_positions(quotes: &[QuoteDay], as_of: CalendarDate) -> (r: Vec<usize>)
    ensures
        r@.len() == usable_positions(quotes@, as_of).len(),
        forall|k: int| 0 <= k < r@.len() ==> r@[k] as int == #[trigger] usable_positions(quotes@, as_of)[k],
{
    let mut out: Vec<usize> = Vec::new();
    let mut i: usize = 0;
    while i < quotes.len()
        invariant
            i <= quotes@.len(),
            out@.len() == usable_positions(quotes@.subrange(0, i as int), as_of).len(),
            forall|k: int| 0 <= k < out@.len() ==> out@[k] as int == #[trigger] usable_positions(
                quotes@.subrange(0, i as int),
                as_of,
            )[k],
        decreases quotes.len() - i,
    {
        proof {
            assert(quotes@.subrange(0, i + 1).drop_last() =~= quotes@.subrange(0, i as int));
        }
        if quotes[i].date.days_from_ce <= as_of.days_from_ce && quotes[i].has_price {
            out.push(i);
        }
        i = i + 1;
    }
    proof {
        assert(quotes@.subrange(0, quotes@.len() as int) =~= quotes@);
    }
    out
}

/// The positions of the first and last quote of the trailing window of `sessions`
/// sessions ending at the last usable quote up to `as_of`; none when fewer than
/// `sessions + 1` quotes are usable.
pub fn trailing_window(quotes: &[QuoteDay], sessions: usize, as_of: CalendarDate) -> (r: Option<(usize, usize)>)
    requires
        sessions < usize::MAX,
    ensures
        match (r, spec_trailing_window(quotes@, sessions as nat, as_of)) {
            (Some((s, e)), Some((ss, ee))) => s == ss && e == ee,
            (None, None) => true,
            _ => false,
        },
{
    let valid = usable_quote_positions(quotes, as_of);
    if valid.len() < sessions + 1 {
        return None;
    }
    let start = valid[valid.len() - sessions - 1];
    let end = valid[valid.len() - 1];
    Some((start, end))
}

fn first_usable_position(quotes: &[QuoteDay], as_of: CalendarDate, day: CalendarDate) -> (r: Option<usize>)
    ensures
        match (r, first_usable_on(quotes@, as_of, day)) {
            (Some(i), Some(j)) => i == j,
            (None, None) => true,
            _ => false,
        },
{
    let mut i: usize = 0;
    while i < quotes.len()
        invariant
            i <= quotes@.len(),
            first_usable_on(quotes@.subrange(0, i as int), as_of, day) is None,
        decreases quotes.len() - i,
    {
        proof {
            assert(quotes@.subrange(0, i + 1).drop_last() =~= quotes@.subrange(0, i as int));
        }
        let q = quotes[i];
        if q.date.days_from_ce <= as_of.days_from_ce && q.has_price && q.date.days_from_ce == day.days_from_ce {
            proof {
                lemma_first_usable_on_prefix(quotes@, i as int + 1, as_of, day);
            }
            return Some(i);
        }
        i = i + 1;
    }
    proof {
        assert(quotes@.subrange(0, quotes@.len() as int) =~= quotes@);
    }
    None
}

proof fn lemma_first_usable_on_prefix(quotes: Seq<QuoteDay>, n: int, as_of: CalendarDate, day: CalendarDate)
    requires
        0 <= n <= quotes.len(),
        first_usable_on(quotes.subrange(0, n), as_of, day) is Some,
    ensures
        first_usable_on(quotes, as_of, day) == first_usable_on(quotes.subrange(0, n), as_of, day),
    decreases quotes.len() - n,
{
    if n < quotes.len() {
        assert(quotes.subrange(0, n + 1).drop_last() =~= quotes.subrange(0, n));
        lemma_first_usable_on_prefix(quotes, n + 1, as_of, day);
    } else {
        assert(quotes.subrange(0, n) =~= quotes);
    }
}

/// The positions of the usable quotes, up to `end_date`, dated `start_date` and
/// `end_date` (the first of each); none when either day has no usable quote.
pub fn window_between(quotes: &[QuoteDay], start_date: CalendarDate, end_date: CalendarDate) -> (r: Option<(usize, usize)>)
    ensures
        match (r, first_usable_on(quotes@, end_date, start_date), first_usable_on(quotes@, end_date, end_date)) {
            (Some((s, e)), Some(ss), Some(ee)) => s == ss && e == ee,
            (None, None, _) => true,
            (None, Some(_), None) => true,
            _ => false,
        },
{
    let start = first_usable_position(quotes, end_date, start_date);
    let end = first_usable_position(quotes, end_date, end_date);
    match (start, end) {
        (Some(s), Some(e)) => Some((s, e)),
        _ => None,
    }
}

} // verus!
