//! The decisions around a market-data refresh: how far back a history is filled, which origin
//! a run has, how it is named, when it is tried again and how its status is reported.

use vstd::prelude::*;
use vstd::string::*;

use crate::domain::data_refresh::{
    finished_state, finished_summary, is_terminal, DataRefreshFailure, DataRefreshOrigin, DataRefreshRun, DataRefreshState,
};
use crate::port::{port_error_text, PortError};
use crate::text::{append, concat, int_digits, int_text};
use crate::time::{calendar_year, in_calendar_year, year_of, CalendarDate, UtcInstant, MIN_DAYS_FROM_CE};

verus! {

pub const PUBLICATION_DELAY_MINUTES: u32 = 20;

pub const MINIMUM_VALID_OBSERVATIONS: usize = 22;

pub const BACKFILL_CALENDAR_DAYS: i32 = 45;

pub const RETRY_MINUTES: i64 = 5;

/// What the backfill reads of a daily quote: its day and whether it has a price (a close or
/// an adjusted close).
#[derive(Debug, Clone, Copy, PartialEq, Eq, Structural)]
pub struct QuoteDay {
    pub date: CalendarDate,
    pub has_price: bool,
}

/// A bounded initial window supplies 22 sessions plus margin for holidays and missing
/// observations.
#[derive(Debug, Clone, Copy, PartialEq, Eq)]
pub struct MarketHistoryBackfillPolicy;

/// The quotes up to `target` that have a price.
pub open spec fn valid_quotes(quotes: Seq<QuoteDay>, target: CalendarDate) -> nat
    decreases quotes.len(),
{
    if quotes.len() == 0 {
        0
    } else {
        valid_quotes(quotes.drop_last(), target) + if quotes.last().date.days_from_ce
            <= target.days_from_ce && quotes.last().has_price {
            1nat
        } else {
            0nat
        }
    }
}

/// The latest day of a quote up to `target`.
pub open spec fn latest_day(quotes: Seq<QuoteDay>, target: CalendarDate) -> Option<int>
    decreases quotes.len(),
{
    if quotes.len() == 0 {
        None
    } else {
        let earlier = latest_day(quotes.drop_last(), target);
        let d = quotes.last().date.days_from_ce as int;
        if d > target.days_from_ce {
            earlier
        } else {
            match earlier {
                Some(e) => if e >= d {
                    Some(e)
                } else {
                    Some(d)
                },
                None => Some(d),
            }
        }
    }
}

/// The day from which a history must be downloaded again, if any: nothing when it has 22
/// valid quotes and reaches the target session; 45 days before the target when it has fewer
/// valid quotes (or no quote up to the target); otherwise the day after its latest quote.
pub open spec fn spec_since(quotes: Seq<QuoteDay>, target: CalendarDate) -> Option<int> {
    let valid = valid_quotes(quotes, target);
    let latest = latest_day(quotes, target);
    if valid >= MINIMUM_VALID_OBSERVATIONS && latest == Some(target.days_from_ce as int) {
        None
    } else if valid < MINIMUM_VALID_OBSERVATIONS {
        Some(target.days_from_ce - BACKFILL_CALENDAR_DAYS)
    } else {
        match latest {
            Some(d) => Some(d + 1),
            None => Some(target.days_from_ce - BACKFILL_CALENDAR_DAYS),
        }
    }
}

proof fn lemma_latest_day_bounded(quotes: Seq<QuoteDay>, target: CalendarDate)
    ensures
        latest_day(quotes, target) matches Some(d) ==> d <= target.days_from_ce && exists|i: int|
            0 <= i < quotes.len() && #[trigger] quotes[i].date.days_from_ce == d,
    decreases quotes.len(),
{
    if quotes.len() > 0 {
        lemma_latest_day_bounded(quotes.drop_last(), target);
        let earlier = latest_day(quotes.drop_last(), target);
        if earlier is Some {
            let i = choose|i: int|
                0 <= i < quotes.drop_last().len() && #[trigger] quotes.drop_last()[i].date.days_from_ce
                    == earlier->0;
            assert(quotes[i].date.days_from_ce == earlier->0);
        }
        assert(quotes[quotes.len() - 1] == quotes.last());
    }
}

impl MarketHistoryBackfillPolicy {
    pub fn since(&self, quotes: &Vec<QuoteDay>, target: CalendarDate) -> (r: Option<CalendarDate>)
        requires
            target.days_from_ce - BACKFILL_CALENDAR_DAYS >= MIN_DAYS_FROM_CE,
        ensures
            match (r, spec_since(quotes@, target)) {
                (None, None) => true,
                (Some(d), Some(e)) => d.days_from_ce == e,
                _ => false,
            },
    {
        let mut valid: usize = 0;
        let mut latest: Option<i32> = None;
        for i in 0..quotes.len()
            invariant
                valid == valid_quotes(quotes@.take(i as int), target),
                valid <= i,
                match latest {
                    Some(d) => latest_day(quotes@.take(i as int), target) == Some(d as int),
                    None => latest_day(quotes@.take(i as int), target) is None,
                },
        {
            proof {
                assert(quotes@.take(i + 1).drop_last() =~= quotes@.take(i as int));
                assert(quotes@.take(i + 1).last() == quotes@[i as int]);
            }
            let q = quotes[i];
            if q.date.days_from_ce <= target.days_from_ce {
                if q.has_price {
                    valid = valid + 1;
                }
                latest = match latest {
                    Some(e) => if e >= q.date.days_from_ce {
                        Some(e)
                    } else {
                        Some(q.date.days_from_ce)
                    },
                    None => Some(q.date.days_from_ce),
                };
            }
        }
        proof {
            assert(quotes@.take(quotes@.len() as int) =~= quotes@);
            lemma_latest_day_bounded(quotes@, target);
        }
        let reached = match latest {
            Some(d) => d == target.days_from_ce,
            None => false,
        };
        if valid >= MINIMUM_VALID_OBSERVATIONS && reached {
            return None;
        }
        if valid < MINIMUM_VALID_OBSERVATIONS {
            return Some(CalendarDate { days_from_ce: target.days_from_ce - BACKFILL_CALENDAR_DAYS });
        }
        match latest {
            Some(d) => Some(CalendarDate { days_from_ce: d + 1 }),
            None => Some(CalendarDate { days_from_ce: target.days_from_ce - BACKFILL_CALENDAR_DAYS }),
        }
    }
}

/// What asked for a refresh.
#[derive(Debug, Clone, Copy, PartialEq, Eq, Structural)]
pub enum DataRefreshTrigger {
    Startup,
    Manual,
    Scheduler,
}

/// The origin of a new run: a scheduled run is a retry when the latest run ended partial or
/// failed and its next attempt is due.
pub open spec fn spec_origin_for(
    trigger: DataRefreshTrigger,
    latest: Option<(DataRefreshState, Option<UtcInstant>)>,
    now: UtcInstant,
) -> DataRefreshOrigin {
    match trigger {
        DataRefreshTrigger::Startup => DataRefreshOrigin::Startup,
        DataRefreshTrigger::Manual => DataRefreshOrigin::Manual,
        DataRefreshTrigger::Scheduler => if latest matches Some((state, next)) && (state
            == DataRefreshState::Partial || state == DataRefreshState::Failed) && (next matches Some(
            n,
        ) && n.micros <= now.micros) {
            DataRefreshOrigin::Retry
        } else {
            DataRefreshOrigin::Scheduled
        },
    }
}

pub fn origin_for(trigger: DataRefreshTrigger, latest: Option<&DataRefreshRun>, now: UtcInstant) -> (r:
    DataRefreshOrigin)
    ensures
        r == spec_origin_for(
            trigger,
            match latest {
                Some(run) => Some((run.state, run.next_attempt_at)),
                None => None,
            },
            now,
        ),
{
    match trigger {
        DataRefreshTrigger::Startup => DataRefreshOrigin::Startup,
        DataRefreshTrigger::Manual => DataRefreshOrigin::Manual,
        DataRefreshTrigger::Scheduler => {
            let retry = match latest {
                Some(run) => (run.state == DataRefreshState::Partial || run.state == DataRefreshState::Failed)
                    && match run.next_attempt_at {
                    Some(next) => next.micros <= now.micros,
                    None => false,
                },
                None => false,
            };
            if retry {
                DataRefreshOrigin::Retry
            } else {
                DataRefreshOrigin::Scheduled
            }
        },
    }
}

/// The name of an origin, as it appears in run identifiers.
pub open spec fn spec_origin_name(origin: DataRefreshOrigin) -> Seq<char> {
    match origin {
        DataRefreshOrigin::Startup => "startup"@,
        DataRefreshOrigin::Scheduled => "scheduled"@,
        DataRefreshOrigin::Retry => "retry"@,
        DataRefreshOrigin::Manual => "manual"@,
    }
}

pub fn origin_name(origin: DataRefreshOrigin) -> (r: &'static str)
    ensures
        r@ == spec_origin_name(origin),
{
    match origin {
        DataRefreshOrigin::Startup => "startup",
        DataRefreshOrigin::Scheduled => "scheduled",
        DataRefreshOrigin::Retry => "retry",
        DataRefreshOrigin::Manual => "manual",
    }
}

/// The identifier of a run: the start instant in microseconds, a hyphen and the origin.
pub fn run_id(now: UtcInstant, origin: DataRefreshOrigin) -> (r: String)
    ensures
        r@ == int_text(now.micros as int) + "-"@ + spec_origin_name(origin),
{
    let mut id = int_digits(now.micros);
    append(&mut id, "-");
    append(&mut id, origin_name(origin));
    id
}

/// A failed step of a refresh.
pub fn failure(ticker: &str, operation: &str, error: &PortError) -> (r: DataRefreshFailure)
    ensures
        r.ticker@ == ticker@,
        r.operation@ == operation@,
        r.error@ == port_error_text(*error),
{
    DataRefreshFailure { ticker: ticker.to_owned(), operation: operation.to_owned(), error: error.message().to_owned() }
}

/// When a run that failed somewhere is tried again: five minutes after it finished.
pub fn retry_attempt(finished_at: UtcInstant) -> (r: UtcInstant)
    requires
        finished_at.micros <= i64::MAX - 300_000_000,
    ensures
        r.micros == finished_at.micros + 300_000_000,
{
    UtcInstant { micros: finished_at.micros + RETRY_MINUTES * 60_000_000 }
}

/// The next attempt recorded, but never before now.
pub fn not_before(next: UtcInstant, now: UtcInstant) -> (r: UtcInstant)
    ensures
        r.micros == if next.micros >= now.micros { next.micros } else { now.micros },
{
    if next.micros >= now.micros {
        next
    } else {
        now
    }
}

/// A status asks for at least one recent run.
pub fn check_recent_limit(recent_limit: usize) -> (r: Result<(), PortError>)
    ensures
        recent_limit > 0 ==> r is Ok,
        recent_limit == 0 ==> (r matches Err(PortError::InvalidRequest(m)) && m@ == "recent limit must be positive"@),
{
    if recent_limit == 0 {
        return Err(PortError::InvalidRequest(String::from_str("recent limit must be positive")));
    }
    Ok(())
}

/// Whether the latest of the recent runs, listed latest first, is still running.
pub fn latest_is_running(recent: &Vec<DataRefreshRun>) -> (r: bool)
    ensures
        r == (recent@.len() > 0 && recent@[0].state == DataRefreshState::Running),
{
    recent.len() > 0 && recent[0].state == DataRefreshState::Running
}

/// What a refresh obtained, persisted and failed so far.
#[derive(Debug, Clone, PartialEq, Eq)]
pub struct RefreshTally {
    pub obtained: u64,
    pub persisted: u64,
    pub failures: Vec<DataRefreshFailure>,
}

impl RefreshTally {
    pub fn start() -> (r: Self)
        ensures
            r.obtained == 0,
            r.persisted == 0,
            r.failures@.len() == 0,
    {
        RefreshTally { obtained: 0, persisted: 0, failures: Vec::new() }
    }

    /// Adds what a step obtained and stored.
    pub fn add(&mut self, obtained: usize, stored: u64)
        requires
            old(self).obtained + obtained <= u64::MAX,
            old(self).persisted + stored <= u64::MAX,
        ensures
            final(self).obtained == old(self).obtained + obtained,
            final(self).persisted == old(self).persisted + stored,
            final(self).failures == old(self).failures,
    {
        self.obtained = self.obtained + obtained as u64;
        self.persisted = self.persisted + stored;
    }

    /// Records a failed step.
    pub fn fail(&mut self, ticker: &str, operation: &str, error: &PortError)
        ensures
            final(self).obtained == old(self).obtained,
            final(self).persisted == old(self).persisted,
            final(self).failures@.len() == old(self).failures@.len() + 1,
            final(self).failures@.drop_last() == old(self).failures@,
            final(self).failures@.last().ticker@ == ticker@,
            final(self).failures@.last().operation@ == operation@,
            final(self).failures@.last().error@ == port_error_text(*error),
    {
        self.failures.push(failure(ticker, operation, error));
    }
}

/// How a request to start a refresh was answered.
#[derive(Debug, Clone, PartialEq, Eq)]
pub enum StartDataRefreshResult {
    Started(DataRefreshRun),
    AlreadyRunning(DataRefreshRun),
    NoEligibleSession,
}

/// The answer when a refresh is already active: the first running run stored, or a conflict
/// where none is stored.
pub fn already_running(running: Vec<DataRefreshRun>) -> (r: Result<StartDataRefreshResult, PortError>)
    ensures
        running@.len() > 0 ==> r == Ok::<StartDataRefreshResult, PortError>(
            StartDataRefreshResult::AlreadyRunning(running@[0]),
        ),
        running@.len() == 0 ==> (r matches Err(PortError::Conflict(m)) && m@ == "a data refresh is already running"@),
{
    let mut running = running;
    if running.len() == 0 {
        return Err(PortError::Conflict(String::from_str("a data refresh is already running")));
    }
    let first = running.remove(0);
    Ok(StartDataRefreshResult::AlreadyRunning(first))
}

/// A tracked ticker as a refresh sees it: its symbol and what is kept for it.
#[derive(Debug, Clone, PartialEq, Eq)]
pub struct RefreshTicker {
    pub ticker: String,
    pub historical_prices: bool,
    pub option_snapshots: bool,
}

/// Where a refresh stands. The first four stages belong to one tracked ticker;
/// the last three come once, after every ticker.
#[derive(Debug, Clone, Copy, PartialEq, Eq, Structural)]
pub enum RefreshStage {
    History,
    MarketHistory,
    OptionChain,
    TermStructure,
    VolatilityIndex,
    YieldCurves,
    Done,
}

/// What a refresh asks to be done next.
#[derive(Debug, Clone, PartialEq, Eq)]
pub enum RefreshAction {
    LoadMarketHistory { ticker: String },
    SynchronizeMarketHistory { ticker: String, since: CalendarDate },
    SynchronizeOptionChain { ticker: String },
    SynchronizeTermStructure { ticker: String },
    SynchronizeVolatilityIndex { ticker: String },
    SynchronizeYieldCurves { year: i32 },
    Finish,
}

/// The first piece of work at or after ticker `p`: its history when it keeps prices,
/// then its option chain when it keeps snapshots (`at_options` starts there); after
/// the last ticker, the volatility index.
pub open spec fn next_work(tickers: Seq<RefreshTicker>, p: int, at_options: bool) -> (int, RefreshStage)
    decreases tickers.len() - p, if at_options {
        0int
    } else {
        1int
    },
{
    if p < 0 || p >= tickers.len() {
        (tickers.len() as int, RefreshStage::VolatilityIndex)
    } else if !at_options {
        if tickers[p].historical_prices {
            (p, RefreshStage::History)
        } else {
            next_work(tickers, p, true)
        }
    } else {
        if tickers[p].option_snapshots {
            (p, RefreshStage::OptionChain)
        } else {
            next_work(tickers, p + 1, false)
        }
    }
}

/// Where a refresh goes after a step succeeds.
pub open spec fn after_success(tickers: Seq<RefreshTicker>, p: int, stage: RefreshStage) -> (int, RefreshStage) {
    match stage {
        RefreshStage::MarketHistory => next_work(tickers, p, true),
        RefreshStage::OptionChain => (p, RefreshStage::TermStructure),
        RefreshStage::TermStructure => next_work(tickers, p + 1, false),
        RefreshStage::VolatilityIndex => (p, RefreshStage::YieldCurves),
        RefreshStage::YieldCurves => (p, RefreshStage::Done),
        _ => (p, stage),
    }
}

/// Where a refresh goes after a step fails: a ticker whose history failed still
/// has its option chain synchronized; a failed option chain skips its term structure.
pub open spec fn after_failure(tickers: Seq<RefreshTicker>, p: int, stage: RefreshStage) -> (int, RefreshStage) {
    match stage {
        RefreshStage::History => next_work(tickers, p, true),
        RefreshStage::MarketHistory => next_work(tickers, p, true),
        RefreshStage::OptionChain => next_work(tickers, p + 1, false),
        RefreshStage::TermStructure => next_work(tickers, p + 1, false),
        RefreshStage::VolatilityIndex => (p, RefreshStage::YieldCurves),
        _ => (p, RefreshStage::Done),
    }
}

/// The name a failed step is recorded under.
pub open spec fn stage_operation(stage: RefreshStage) -> Seq<char> {
    match stage {
        RefreshStage::History => "load_market_history"@,
        RefreshStage::MarketHistory => "market_history"@,
        RefreshStage::OptionChain => "option_chain"@,
        RefreshStage::TermStructure => "term_structure"@,
        RefreshStage::VolatilityIndex => "volatility_index"@,
        _ => "yield_curves"@,
    }
}

/// The subject a failed step is recorded for: the ticker, the volatility index, or
/// the year of the yield curves.
pub open spec fn stage_subject(tickers: Seq<RefreshTicker>, p: int, stage: RefreshStage, year: i32) -> Seq<char> {
    match stage {
        RefreshStage::VolatilityIndex => "VIX"@,
        RefreshStage::YieldCurves => int_text(year as int),
        RefreshStage::Done => int_text(year as int),
        _ => tickers[p].ticker@,
    }
}

/// `a` is the action asked for at stage `stage` of ticker `p`.
pub open spec fn is_stage_action(
    a: RefreshAction,
    tickers: Seq<RefreshTicker>,
    p: int,
    stage: RefreshStage,
    since: CalendarDate,
    year: i32,
) -> bool {
    match stage {
        RefreshStage::History => (a matches RefreshAction::LoadMarketHistory { ticker } && ticker@ == tickers[p].ticker@),
        RefreshStage::MarketHistory => (a matches RefreshAction::SynchronizeMarketHistory { ticker, since: d }
            && ticker@ == tickers[p].ticker@ && d == since),
        RefreshStage::OptionChain => (a matches RefreshAction::SynchronizeOptionChain { ticker } && ticker@
            == tickers[p].ticker@),
        RefreshStage::TermStructure => (a matches RefreshAction::SynchronizeTermStructure { ticker } && ticker@
            == tickers[p].ticker@),
        RefreshStage::VolatilityIndex => (a matches RefreshAction::SynchronizeVolatilityIndex { ticker } && ticker@
            == "VIX"@),
        RefreshStage::YieldCurves => a == RefreshAction::SynchronizeYieldCurves { year },
        RefreshStage::Done => a == RefreshAction::Finish,
    }
}

/// The stage belongs to the ticker at `p`, and that ticker keeps what the stage
/// synchronizes; the closing stages come after every ticker.
pub open spec fn stage_fits(tickers: Seq<RefreshTicker>, p: int, stage: RefreshStage) -> bool {
    &&& 0 <= p <= tickers.len()
    &&& match stage {
        RefreshStage::History => p < tickers.len() && tickers[p].historical_prices,
        RefreshStage::MarketHistory => p < tickers.len() && tickers[p].historical_prices,
        RefreshStage::OptionChain => p < tickers.len() && tickers[p].option_snapshots,
        RefreshStage::TermStructure => p < tickers.len() && tickers[p].option_snapshots,
        _ => p == tickers.len(),
    }
}

/// A bound on the steps a refresh has left: four for each ticker still ahead,
/// and fewer for each stage already passed.
pub open spec fn remaining_work(tickers: Seq<RefreshTicker>, p: int, stage: RefreshStage) -> int {
    4 * (tickers.len() - p) + match stage {
        RefreshStage::History => 3int,
        RefreshStage::MarketHistory => 2int,
        RefreshStage::OptionChain => 1int,
        RefreshStage::TermStructure => 0int,
        RefreshStage::VolatilityIndex => 2int,
        RefreshStage::YieldCurves => 1int,
        RefreshStage::Done => 0int,
    }
}

/// A refresh in progress: the tickers it goes through, where it stands, and what
/// it obtained, persisted and failed so far.
pub struct DataRefreshExecution {
    tickers: Vec<RefreshTicker>,
    target: CalendarDate,
    year: i32,
    position: usize,
    stage: RefreshStage,
    since: CalendarDate,
    tally: RefreshTally,
}

impl DataRefreshExecution {
    pub closed spec fn tickers(&self) -> Seq<RefreshTicker> {
        self.tickers@
    }

    pub closed spec fn target(&self) -> CalendarDate {
        self.target
    }

    pub closed spec fn year(&self) -> i32 {
        self.year
    }

    pub closed spec fn position(&self) -> int {
        self.position as int
    }

    pub closed spec fn stage(&self) -> RefreshStage {
        self.stage
    }

    /// The first day a pending history synchronization asks for.
    pub closed spec fn since(&self) -> CalendarDate {
        self.since
    }

    pub closed spec fn spec_tally(&self) -> RefreshTally {
        self.tally
    }

    /// The stage belongs to the ticker at the position, and that ticker keeps what
    /// the stage synchronizes; the closing stages come after every ticker.
    pub closed spec fn wf(&self) -> bool {
        &&& stage_fits(self.tickers@, self.position as int, self.stage)
        &&& self.target.days_from_ce - BACKFILL_CALENDAR_DAYS >= MIN_DAYS_FROM_CE
    }

    proof fn lemma_next_work_fits(tickers: Seq<RefreshTicker>, p: int, at_options: bool)
        requires
            0 <= p <= tickers.len(),
        ensures
            ({
                let (q, stage) = next_work(tickers, p, at_options);
                &&& p <= q <= tickers.len()
                &&& at_options && q == p && q < tickers.len() ==> stage == RefreshStage::OptionChain
                &&& match stage {
                    RefreshStage::History => q < tickers.len() && tickers[q].historical_prices,
                    RefreshStage::OptionChain => q < tickers.len() && tickers[q].option_snapshots,
                    RefreshStage::VolatilityIndex => q == tickers.len(),
                    _ => false,
                }
            }),
        decreases tickers.len() - p, if at_options {
            0int
        } else {
            1int
        },
    {
        if p < tickers.len() {
            if !at_options {
                if !tickers[p].historical_prices {
                    Self::lemma_next_work_fits(tickers, p, true);
                }
            } else if !tickers[p].option_snapshots {
                Self::lemma_next_work_fits(tickers, p + 1, false);
            }
        }
    }

    /// Moves to the first piece of work at or after ticker `p`.
    fn settle(&mut self, p: usize, at_options: bool)
        requires
            p <= old(self).tickers@.len(),
        ensures
            (final(self).position as int, final(self).stage) == next_work(old(self).tickers@, p as int, at_options),
            final(self).tickers == old(self).tickers,
            final(self).target == old(self).target,
            final(self).year == old(self).year,
            final(self).since == old(self).since,
            final(self).tally == old(self).tally,
    {
        let ghost goal = next_work(self.tickers@, p as int, at_options);
        let mut q = p;
        let mut at = at_options;
        while q < self.tickers.len()
            invariant
                q <= self.tickers@.len(),
                self.tickers == old(self).tickers,
                self.target == old(self).target,
                self.year == old(self).year,
                self.since == old(self).since,
                self.tally == old(self).tally,
                next_work(self.tickers@, q as int, at) == goal,
                goal == next_work(old(self).tickers@, p as int, at_options),
            decreases 2 * (self.tickers@.len() - q) + if at {
                0int
            } else {
                1int
            },
        {
            if !at {
                if self.tickers[q].historical_prices {
                    self.position = q;
                    self.stage = RefreshStage::History;
                    return;
                }
                at = true;
            } else {
                if self.tickers[q].option_snapshots {
                    self.position = q;
                    self.stage = RefreshStage::OptionChain;
                    return;
                }
                q = q + 1;
                at = false;
            }
        }
        self.position = self.tickers.len();
        self.stage = RefreshStage::VolatilityIndex;
    }

    /// A refresh of the session `target`, over the active tickers as loaded. When
    /// they could not be loaded, the failure is recorded and only the volatility
    /// index and the yield curves are synchronized.
    pub fn start(tickers: Result<Vec<RefreshTicker>, PortError>, target: CalendarDate) -> (r: Self)
        requires
            target.is_valid(),
            target.days_from_ce - BACKFILL_CALENDAR_DAYS >= MIN_DAYS_FROM_CE,
        ensures
            r.wf(),
            r.target() == target,
            r.year() == calendar_year(target.days_from_ce),
            in_calendar_year(target.days_from_ce as int, r.year() as int),
            (r.position(), r.stage()) == next_work(r.tickers(), 0, false),
            r.spec_tally().obtained == 0,
            r.spec_tally().persisted == 0,
            match tickers {
                Ok(v) => r.tickers() == v@ && r.spec_tally().failures@.len() == 0,
                Err(e) => {
                    &&& r.tickers().len() == 0
                    &&& r.spec_tally().failures@.len() == 1
                    &&& r.spec_tally().failures@[0].ticker@ == "system"@
                    &&& r.spec_tally().failures@[0].operation@ == "tracked_tickers"@
                    &&& r.spec_tally().failures@[0].error@ == port_error_text(e)
                },
            },
    {
        let mut tally = RefreshTally::start();
        let list = match tickers {
            Ok(v) => v,
            Err(e) => {
                tally.fail("system", "tracked_tickers", &e);
                Vec::new()
            },
        };
        let year = year_of(target);
        let mut r = DataRefreshExecution {
            tickers: list,
            target,
            year,
            position: 0,
            stage: RefreshStage::VolatilityIndex,
            since: target,
            tally,
        };
        r.settle(0, false);
        proof {
            Self::lemma_next_work_fits(r.tickers@, 0, false);
        }
        r
    }

    /// What the refresh obtained, persisted and failed so far.
    pub fn tally(&self) -> (r: &RefreshTally)
        ensures
            *r == self.spec_tally(),
    {
        &self.tally
    }

    /// The refresh is over: every step was taken.
    pub fn is_done(&self) -> (r: bool)
        ensures
            r == (self.stage() == RefreshStage::Done),
    {
        self.stage == RefreshStage::Done
    }

    /// What to do next.
    pub fn next_action(&self) -> (r: RefreshAction)
        requires
            self.wf(),
        ensures
            is_stage_action(r, self.tickers(), self.position(), self.stage(), self.since(), self.year()),
    {
        match self.stage {
            RefreshStage::History => RefreshAction::LoadMarketHistory {
                ticker: self.tickers[self.position].ticker.clone(),
            },
            RefreshStage::MarketHistory => RefreshAction::SynchronizeMarketHistory {
                ticker: self.tickers[self.position].ticker.clone(),
                since: self.since,
            },
            RefreshStage::OptionChain => RefreshAction::SynchronizeOptionChain {
                ticker: self.tickers[self.position].ticker.clone(),
            },
            RefreshStage::TermStructure => RefreshAction::SynchronizeTermStructure {
                ticker: self.tickers[self.position].ticker.clone(),
            },
            RefreshStage::VolatilityIndex => RefreshAction::SynchronizeVolatilityIndex { ticker: "VIX".to_owned() },
            RefreshStage::YieldCurves => RefreshAction::SynchronizeYieldCurves { year: self.year },
            RefreshStage::Done => RefreshAction::Finish,
        }
    }

    /// The ticker's history was loaded: its missing days are synchronized, or, when
    /// nothing is missing, the refresh moves on to its option chain.
    pub fn history_loaded(&mut self, quotes: &Vec<QuoteDay>)
        requires
            old(self).wf(),
            old(self).stage() == RefreshStage::History,
        ensures
            final(self).wf(),
            final(self).tickers() == old(self).tickers(),
            final(self).target() == old(self).target(),
            final(self).year() == old(self).year(),
            final(self).spec_tally() == old(self).spec_tally(),
            match spec_since(quotes@, old(self).target()) {
                Some(d) => {
                    &&& final(self).position() == old(self).position()
                    &&& final(self).stage() == RefreshStage::MarketHistory
                    &&& final(self).since().days_from_ce == d
                },
                None => (final(self).position(), final(self).stage()) == next_work(
                    old(self).tickers(),
                    old(self).position(),
                    true,
                ),
            },
    {
        let policy = MarketHistoryBackfillPolicy;
        match policy.since(quotes, self.target) {
            Some(d) => {
                self.since = d;
                self.stage = RefreshStage::MarketHistory;
            },
            None => {
                let p = self.position;
                self.settle(p, true);
                proof {
                    Self::lemma_next_work_fits(self.tickers@, p as int, true);
                }
            },
        }
    }

    /// The step asked for succeeded with what it obtained and stored.
    pub fn synchronized(&mut self, obtained: usize, stored: u64)
        requires
            old(self).wf(),
            old(self).stage() != RefreshStage::History,
            old(self).stage() != RefreshStage::Done,
            old(self).spec_tally().obtained + obtained <= u64::MAX,
            old(self).spec_tally().persisted + stored <= u64::MAX,
        ensures
            final(self).wf(),
            final(self).tickers() == old(self).tickers(),
            final(self).target() == old(self).target(),
            final(self).year() == old(self).year(),
            final(self).spec_tally().obtained == old(self).spec_tally().obtained + obtained,
            final(self).spec_tally().persisted == old(self).spec_tally().persisted + stored,
            final(self).spec_tally().failures == old(self).spec_tally().failures,
            (final(self).position(), final(self).stage()) == after_success(
                old(self).tickers(),
                old(self).position(),
                old(self).stage(),
            ),
    {
        self.tally.add(obtained, stored);
        let p = self.position;
        let count = self.tickers.len();
        let following = if p < count {
            p + 1
        } else {
            count
        };
        match self.stage {
            RefreshStage::MarketHistory => {
                self.settle(p, true);
                proof {
                    Self::lemma_next_work_fits(self.tickers@, p as int, true);
                }
            },
            RefreshStage::OptionChain => {
                self.stage = RefreshStage::TermStructure;
            },
            RefreshStage::TermStructure => {
                self.settle(following, false);
                proof {
                    Self::lemma_next_work_fits(self.tickers@, following as int, false);
                }
            },
            RefreshStage::VolatilityIndex => {
                self.stage = RefreshStage::YieldCurves;
            },
            _ => {
                self.stage = RefreshStage::Done;
            },
        }
    }

    /// The step asked for failed: the failure is recorded under the step's subject
    /// and name, and the refresh moves on.
    pub fn failed(&mut self, error: &PortError)
        requires
            old(self).wf(),
            old(self).stage() != RefreshStage::Done,
        ensures
            final(self).wf(),
            final(self).tickers() == old(self).tickers(),
            final(self).target() == old(self).target(),
            final(self).year() == old(self).year(),
            final(self).spec_tally().obtained == old(self).spec_tally().obtained,
            final(self).spec_tally().persisted == old(self).spec_tally().persisted,
            final(self).spec_tally().failures@.len() == old(self).spec_tally().failures@.len() + 1,
            final(self).spec_tally().failures@.drop_last() == old(self).spec_tally().failures@,
            final(self).spec_tally().failures@.last().ticker@ == stage_subject(
                old(self).tickers(),
                old(self).position(),
                old(self).stage(),
                old(self).year(),
            ),
            final(self).spec_tally().failures@.last().operation@ == stage_operation(old(self).stage()),
            final(self).spec_tally().failures@.last().error@ == port_error_text(*error),
            (final(self).position(), final(self).stage()) == after_failure(
                old(self).tickers(),
                old(self).position(),
                old(self).stage(),
            ),
    {
        let p = self.position;
        let count = self.tickers.len();
        let following = if p < count {
            p + 1
        } else {
            count
        };
        match self.stage {
            RefreshStage::History => {
                self.tally.fail(self.tickers[p].ticker.as_str(), "load_market_history", error);
                self.settle(p, true);
                proof {
                    Self::lemma_next_work_fits(self.tickers@, p as int, true);
                }
            },
            RefreshStage::MarketHistory => {
                self.tally.fail(self.tickers[p].ticker.as_str(), "market_history", error);
                self.settle(p, true);
                proof {
                    Self::lemma_next_work_fits(self.tickers@, p as int, true);
                }
            },
            RefreshStage::OptionChain => {
                self.tally.fail(self.tickers[p].ticker.as_str(), "option_chain", error);
                self.settle(following, false);
                proof {
                    Self::lemma_next_work_fits(self.tickers@, following as int, false);
                }
            },
            RefreshStage::TermStructure => {
                self.tally.fail(self.tickers[p].ticker.as_str(), "term_structure", error);
                self.settle(following, false);
                proof {
                    Self::lemma_next_work_fits(self.tickers@, following as int, false);
                }
            },
            RefreshStage::VolatilityIndex => {
                self.tally.fail("VIX", "volatility_index", error);
                self.stage = RefreshStage::YieldCurves;
            },
            _ => {
                let subject = int_digits(self.year as i64);
                self.tally.fail(subject.as_str(), "yield_curves", error);
                self.stage = RefreshStage::Done;
            },
        }
    }
}

impl DataRefreshExecution {
    /// Ends the run with what the refresh gathered. A refresh that failed somewhere
    /// is tried again five minutes after it finished; one that did not, at the
    /// attempt the trading calendar gives for the next session, which the caller
    /// obtains only in that case.
    pub fn complete(
        self,
        run: &mut DataRefreshRun,
        finished_at: UtcInstant,
        session_attempt: Option<UtcInstant>,
    ) -> (r: Result<(), PortError>)
        requires
            self.spec_tally().failures@.len() == 0 ==> session_attempt is Some,
            self.spec_tally().failures@.len() > 0 ==> finished_at.micros <= i64::MAX - 300_000_000,
        ensures
            is_terminal(old(run).state) ==> *final(run) == *old(run) && (r matches Err(PortError::Conflict(m))
                && m@ == "only a running refresh can be finished"@),
            !is_terminal(old(run).state) ==> {
                let tally = self.spec_tally();
                &&& r is Ok
                &&& final(run).state == finished_state(tally.failures@.len(), tally.obtained, tally.persisted)
                &&& final(run).failures == tally.failures
                &&& final(run).items_obtained == tally.obtained
                &&& final(run).items_persisted == tally.persisted
                &&& final(run).finished_at == Some(finished_at)
                &&& final(run).next_attempt_at == if tally.failures@.len() == 0 {
                    session_attempt
                } else {
                    Some(UtcInstant { micros: (finished_at.micros + 300_000_000) as i64 })
                }
                &&& final(run).summary@ == finished_summary(final(run).state, tally.failures@.len())
                &&& final(run).id == old(run).id
                &&& final(run).origin == old(run).origin
                &&& final(run).started_at == old(run).started_at
                &&& final(run).target_session == old(run).target_session
            },
    {
        let tally = self.tally;
        let next = if tally.failures.len() == 0 {
            session_attempt
        } else {
            Some(retry_attempt(finished_at))
        };
        run.finish(finished_at, tally.obtained, tally.persisted, tally.failures, next)
    }
}

/// Records that a refresh stopped on an error: the run is interrupted, its summary
/// gives the error, and it is tried again five minutes later. Refused, with nothing
/// changed, for a run that is no longer running.
pub fn record_failed_run(run: &mut DataRefreshRun, failed_at: UtcInstant, error: &PortError) -> (r: Result<(), PortError>)
    requires
        old(run).failure_count < u64::MAX,
        failed_at.micros <= i64::MAX - 300_000_000,
    ensures
        is_terminal(old(run).state) ==> *final(run) == *old(run) && (r matches Err(PortError::Conflict(m)) && m@
            == "only a running refresh can be interrupted"@),
        !is_terminal(old(run).state) ==> {
            &&& r is Ok
            &&& final(run).state == DataRefreshState::Failed
            &&& final(run).finished_at == Some(failed_at)
            &&& final(run).failure_count == old(run).failure_count + 1
            &&& final(run).summary@ == "Atualização falhou: "@ + port_error_text(*error)
            &&& final(run).next_attempt_at == Some(UtcInstant { micros: (failed_at.micros + 300_000_000) as i64 })
            &&& final(run).failures@.len() == old(run).failures@.len() + 1
            &&& final(run).failures@.drop_last() == old(run).failures@
            &&& final(run).failures@.last().ticker@ == "system"@
            &&& final(run).failures@.last().operation@ == "refresh"@
            &&& final(run).failures@.last().error@ == "process interrupted"@
            &&& final(run).id == old(run).id
            &&& final(run).origin == old(run).origin
            &&& final(run).started_at == old(run).started_at
            &&& final(run).target_session == old(run).target_session
            &&& final(run).items_obtained == old(run).items_obtained
            &&& final(run).items_persisted == old(run).items_persisted
        },
{
    run.interrupt(failed_at)?;
    run.summary = concat("Atualização falhou: ", error.message());
    run.next_attempt_at = Some(retry_attempt(failed_at));
    Ok(())
}

/// Marks a run left running by a stopped process as interrupted, to be tried again
/// at once. Refused, with nothing changed, for a run that is no longer running.
pub fn recover_run(run: &mut DataRefreshRun, now: UtcInstant) -> (r: Result<(), PortError>)
    requires
        old(run).failure_count < u64::MAX,
    ensures
        is_terminal(old(run).state) ==> *final(run) == *old(run) && (r matches Err(PortError::Conflict(m)) && m@
            == "only a running refresh can be interrupted"@),
        !is_terminal(old(run).state) ==> {
            &&& r is Ok
            &&& final(run).state == DataRefreshState::Failed
            &&& final(run).finished_at == Some(now)
            &&& final(run).next_attempt_at == Some(now)
            &&& final(run).failure_count == old(run).failure_count + 1
            &&& final(run).summary@ == "Atualização falhou: execução interrompida pelo encerramento do processo"@
            &&& final(run).failures@.len() == old(run).failures@.len() + 1
            &&& final(run).failures@.drop_last() == old(run).failures@
            &&& final(run).failures@.last().ticker@ == "system"@
            &&& final(run).failures@.last().operation@ == "refresh"@
            &&& final(run).failures@.last().error@ == "process interrupted"@
            &&& final(run).id == old(run).id
            &&& final(run).origin == old(run).origin
            &&& final(run).started_at == old(run).started_at
            &&& final(run).target_session == old(run).target_session
            &&& final(run).items_obtained == old(run).items_obtained
            &&& final(run).items_persisted == old(run).items_persisted
        },
{
    run.interrupt(now)?;
    run.next_attempt_at = Some(now);
    Ok(())
}

/// A refresh always ends: every step it takes, whether it succeeds, fails or
/// finds a history complete, leaves it less work, and the stage it moves to again
/// fits its tickers; only `Done` has no step left.
pub proof fn lemma_refresh_steps_shrink_the_work(tickers: Seq<RefreshTicker>, p: int, stage: RefreshStage)
    requires
        stage_fits(tickers, p, stage),
    ensures
        remaining_work(tickers, p, stage) >= 0,
        stage == RefreshStage::Done <==> remaining_work(tickers, p, stage) == 0,
        stage != RefreshStage::Done ==> {
            let (q, next) = after_failure(tickers, p, stage);
            stage_fits(tickers, q, next) && remaining_work(tickers, q, next) < remaining_work(tickers, p, stage)
        },
        stage != RefreshStage::Done && stage != RefreshStage::History ==> {
            let (q, next) = after_success(tickers, p, stage);
            stage_fits(tickers, q, next) && remaining_work(tickers, q, next) < remaining_work(tickers, p, stage)
        },
        stage == RefreshStage::History ==> {
            &&& stage_fits(tickers, p, RefreshStage::MarketHistory)
            &&& remaining_work(tickers, p, RefreshStage::MarketHistory) < remaining_work(tickers, p, stage)
        },
{
    if stage == RefreshStage::History || stage == RefreshStage::MarketHistory {
        DataRefreshExecution::lemma_next_work_fits(tickers, p, true);
    }
    if stage == RefreshStage::OptionChain || stage == RefreshStage::TermStructure {
        DataRefreshExecution::lemma_next_work_fits(tickers, p + 1, false);
    }
}

} // verus!
