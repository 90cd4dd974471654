//! Market-data synchronization use cases.

use vstd::prelude::*;
use vstd::string::*;

use crate::port::{port_error_text, PortError};
use crate::text::{string_from, trim_upper, trimmed, upper};
use super::data_refresh::RefreshTicker;
use super::option_snapshot_enrichment::{evidence_values, spec_single_evidenced_currency};

verus! {

/// Collaborators needed specifically for derived option analytics.
pub struct OptionAnalysisCollaborators<OptionChains, YieldCurves, TradingCalendar> {
    option_chains: OptionChains,
    yield_curves: YieldCurves,
    trading_calendar: TradingCalendar,
}

impl<OptionChains, YieldCurves, TradingCalendar> OptionAnalysisCollaborators<OptionChains, YieldCurves, TradingCalendar> {
    /// The collaborators the use case was built with, in the order `new` takes them.
    pub closed spec fn parts(&self) -> (OptionChains, YieldCurves, TradingCalendar) {
        (self.option_chains, self.yield_curves, self.trading_calendar)
    }

    pub fn new(option_chains: OptionChains, yield_curves: YieldCurves, trading_calendar: TradingCalendar) -> (r: Self)
        ensures
            r.parts() == (option_chains, yield_curves, trading_calendar),
    {
        OptionAnalysisCollaborators { option_chains, yield_curves, trading_calendar }
    }
}

/// The resolver that enriches synchronized option snapshots with contract specifications.
pub struct OptionSnapshotEnrichment<ContractSpecifications> {
    contract_specifications: ContractSpecifications,
}

impl<ContractSpecifications> OptionSnapshotEnrichment<ContractSpecifications> {
    /// The collaborator the use case was built with.
    pub closed spec fn parts(&self) -> ContractSpecifications {
        self.contract_specifications
    }

    pub fn new(contract_specifications: ContractSpecifications) -> (r: Self)
        ensures
            r.parts() == contract_specifications,
    {
        OptionSnapshotEnrichment { contract_specifications }
    }
}

/// Where synchronized data is obtained.
pub struct SynchronizationSources<History, Options, Indices, Curves> {
    history: History,
    options: Options,
    indices: Indices,
    curves: Curves,
}

impl<History, Options, Indices, Curves> SynchronizationSources<History, Options, Indices, Curves> {
    /// The collaborators the use case was built with, in the order `new` takes them.
    pub closed spec fn parts(&self) -> (History, Options, Indices, Curves) {
        (self.history, self.options, self.indices, self.curves)
    }

    pub fn new(history: History, options: Options, indices: Indices, curves: Curves) -> (r: Self)
        ensures
            r.parts() == (history, options, indices, curves),
    {
        SynchronizationSources { history, options, indices, curves }
    }
}

/// Where synchronized data is stored.
pub struct SynchronizationStores<History, OptionChains, OptionData, Indices, Curves> {
    history: History,
    option_chains: OptionChains,
    option_data: OptionData,
    indices: Indices,
    curves: Curves,
}

impl<History, OptionChains, OptionData, Indices, Curves> SynchronizationStores<History, OptionChains, OptionData, Indices, Curves> {
    /// The collaborators the use case was built with, in the order `new` takes them.
    pub closed spec fn parts(&self) -> (History, OptionChains, OptionData, Indices, Curves) {
        (self.history, self.option_chains, self.option_data, self.indices, self.curves)
    }

    pub fn new(history: History, option_chains: OptionChains, option_data: OptionData, indices: Indices, curves: Curves) -> (r: Self)
        ensures
            r.parts() == (history, option_chains, option_data, indices, curves),
    {
        SynchronizationStores { history, option_chains, option_data, indices, curves }
    }
}

/// Coordinates provider-neutral acquisition and persistence ports.
pub struct SynchronizationApplication<History, Options, Indices, Curves, HistoryStore, OptionChainStore, OptionStore, IndexStore, CurveStore, TrackedTickers, OptionChains, YieldCurves, TradingCalendar, ContractSpecifications> {
    sources: SynchronizationSources<History, Options, Indices, Curves>,
    stores: SynchronizationStores<HistoryStore, OptionChainStore, OptionStore, IndexStore, CurveStore>,
    tracked_tickers: TrackedTickers,
    option_analysis: OptionAnalysisCollaborators<OptionChains, YieldCurves, TradingCalendar>,
    option_snapshot_enrichment: OptionSnapshotEnrichment<ContractSpecifications>,
}

impl<History, Options, Indices, Curves, HistoryStore, OptionChainStore, OptionStore, IndexStore, CurveStore, TrackedTickers, OptionChains, YieldCurves, TradingCalendar, ContractSpecifications> SynchronizationApplication<History, Options, Indices, Curves, HistoryStore, OptionChainStore, OptionStore, IndexStore, CurveStore, TrackedTickers, OptionChains, YieldCurves, TradingCalendar, ContractSpecifications> {
    /// The collaborators the use case was built with, in the order `new` takes them.
    pub closed spec fn parts(&self) -> (SynchronizationSources<History, Options, Indices, Curves>, SynchronizationStores<HistoryStore, OptionChainStore, OptionStore, IndexStore, CurveStore>, TrackedTickers, OptionAnalysisCollaborators<OptionChains, YieldCurves, TradingCalendar>, OptionSnapshotEnrichment<ContractSpecifications>) {
        (self.sources, self.stores, self.tracked_tickers, self.option_analysis, self.option_snapshot_enrichment)
    }

    pub fn new(sources: SynchronizationSources<History, Options, Indices, Curves>, stores: SynchronizationStores<HistoryStore, OptionChainStore, OptionStore, IndexStore, CurveStore>, tracked_tickers: TrackedTickers, option_analysis: OptionAnalysisCollaborators<OptionChains, YieldCurves, TradingCalendar>, option_snapshot_enrichment: OptionSnapshotEnrichment<ContractSpecifications>) -> (r: Self)
        ensures
            r.parts() == (sources, stores, tracked_tickers, option_analysis, option_snapshot_enrichment),
    {
        SynchronizationApplication { sources, stores, tracked_tickers, option_analysis, option_snapshot_enrichment }
    }
}

/// A synchronization step that failed: the ticker, the operation and the error text.
#[derive(Debug, Clone, PartialEq, Eq)]
pub struct SynchronizationFailure {
    pub ticker: String,
    pub operation: String,
    pub error: String,
}

/// What one synchronization obtained and stored.
#[derive(Debug, Clone, Copy, PartialEq, Eq, Structural)]
pub struct SynchronizationReport {
    pub items_obtained: usize,
    pub items_stored: u64,
}

/// What the synchronization of the tracked tickers obtained, stored and failed.
#[derive(Debug, Clone, PartialEq, Eq)]
pub struct TrackedTickersSynchronizationReport {
    pub tickers: usize,
    pub items_obtained: usize,
    pub items_stored: u64,
    pub failures: Vec<SynchronizationFailure>,
}

impl TrackedTickersSynchronizationReport {
    /// A report over `tickers` tickers, with nothing done yet.
    pub fn start(tickers: usize) -> (r: Self)
        ensures
            r.tickers == tickers,
            r.items_obtained == 0,
            r.items_stored == 0,
            r.failures@.len() == 0,
    {
        TrackedTickersSynchronizationReport { tickers, items_obtained: 0, items_stored: 0, failures: Vec::new() }
    }

    /// Adds what a step obtained and stored.
    pub fn add(&mut self, step: SynchronizationReport)
        requires
            old(self).items_obtained + step.items_obtained <= usize::MAX,
            old(self).items_stored + step.items_stored <= u64::MAX,
        ensures
            final(self).items_obtained == old(self).items_obtained + step.items_obtained,
            final(self).items_stored == old(self).items_stored + step.items_stored,
            final(self).tickers == old(self).tickers,
            final(self).failures == old(self).failures,
    {
        self.items_obtained = self.items_obtained + step.items_obtained;
        self.items_stored = self.items_stored + step.items_stored;
    }

    /// Records a failed step.
    pub fn fail(&mut self, ticker: &str, operation: &str, error: &PortError)
        ensures
            final(self).failures@.len() == old(self).failures@.len() + 1,
            final(self).failures@.drop_last() == old(self).failures@,
            final(self).failures@.last().ticker@ == ticker@,
            final(self).failures@.last().operation@ == operation@,
            final(self).failures@.last().error@ == port_error_text(*error),
            final(self).tickers == old(self).tickers,
            final(self).items_obtained == old(self).items_obtained,
            final(self).items_stored == old(self).items_stored,
    {
        self.failures.push(
            SynchronizationFailure {
                ticker: ticker.to_owned(),
                operation: operation.to_owned(),
                error: error.message().to_owned(),
            },
        );
    }
}

/// The one currency that every contract evidences: none where a contract evidences none, or
/// where the contracts evidence different currencies, or where there are no contracts.
pub fn single_evidenced_currency(specifications: &[Option<&str>]) -> (r: Option<String>)
    ensures
        match r {
            Some(c) => spec_single_evidenced_currency(evidence_values(specifications@)) == Some(c@),
            None => spec_single_evidenced_currency(evidence_values(specifications@)) is None,
        },
{
    super::option_snapshot_enrichment::single_evidenced_currency(specifications)
}

/// The requested ticker, trimmed and upper-cased; refused when nothing is left.
pub fn normalized_ticker(ticker: &str) -> (r: Result<String, PortError>)
    ensures
        upper(trimmed(ticker@)).len() > 0 ==> (r matches Ok(t) && t@ == upper(trimmed(ticker@))),
        upper(trimmed(ticker@)).len() == 0 ==> (r matches Err(PortError::InvalidRequest(m)) && m@
            == "ticker must not be empty"@),
{
    let t = trim_upper(ticker);
    if t.len() == 0 {
        return Err(PortError::InvalidRequest(String::from_str("ticker must not be empty")));
    }
    Ok(string_from(&t))
}

/// Where a synchronization of the tracked tickers stands: a step for the ticker
/// at its position, or done.
#[derive(Debug, Clone, Copy, PartialEq, Eq, Structural)]
pub enum SynchronizationStage {
    MarketHistory,
    OptionChain,
    TermStructure,
    Done,
}

/// What the synchronization of the tracked tickers asks to be done next.
#[derive(Debug, Clone, PartialEq, Eq)]
pub enum SynchronizationAction {
    SynchronizeMarketHistory { ticker: String },
    SynchronizeOptionChain { ticker: String },
    SynchronizeTermStructure { ticker: String },
    Finish,
}

/// The first step at or after ticker `p`: its history when it keeps prices, then its
/// option chain when it keeps snapshots (`at_options` starts there); after the last
/// ticker, nothing.
pub open spec fn next_ticker_step(tickers: Seq<RefreshTicker>, p: int, at_options: bool) -> (int, SynchronizationStage)
    decreases tickers.len() - p, if at_options {
        0int
    } else {
        1int
    },
{
    if p < 0 || p >= tickers.len() {
        (tickers.len() as int, SynchronizationStage::Done)
    } else if !at_options {
        if tickers[p].historical_prices {
            (p, SynchronizationStage::MarketHistory)
        } else {
            next_ticker_step(tickers, p, true)
        }
    } else {
        if tickers[p].option_snapshots {
            (p, SynchronizationStage::OptionChain)
        } else {
            next_ticker_step(tickers, p + 1, false)
        }
    }
}

/// Where the synchronization goes after a step: a history, failed or not, is
/// followed by the ticker's option chain; a synchronized chain by its term
/// structure; a failed chain skips it.
pub open spec fn after_step(tickers: Seq<RefreshTicker>, p: int, stage: SynchronizationStage, succeeded: bool) -> (
    int,
    SynchronizationStage,
) {
    match stage {
        SynchronizationStage::MarketHistory => next_ticker_step(tickers, p, true),
        SynchronizationStage::OptionChain => if succeeded {
            (p, SynchronizationStage::TermStructure)
        } else {
            next_ticker_step(tickers, p + 1, false)
        },
        SynchronizationStage::TermStructure => next_ticker_step(tickers, p + 1, false),
        SynchronizationStage::Done => (p, SynchronizationStage::Done),
    }
}

/// The stage belongs to the ticker at `p`, and that ticker keeps what the stage
/// synchronizes; `Done` comes after every ticker.
pub open spec fn synchronization_stage_fits(tickers: Seq<RefreshTicker>, p: int, stage: SynchronizationStage) -> bool {
    &&& 0 <= p <= tickers.len()
    &&& match stage {
        SynchronizationStage::MarketHistory => p < tickers.len() && tickers[p].historical_prices,
        SynchronizationStage::OptionChain => p < tickers.len() && tickers[p].option_snapshots,
        SynchronizationStage::TermStructure => p < tickers.len() && tickers[p].option_snapshots,
        SynchronizationStage::Done => p == tickers.len(),
    }
}

/// The name a failed step is recorded under.
pub open spec fn synchronization_operation(stage: SynchronizationStage) -> Seq<char> {
    match stage {
        SynchronizationStage::MarketHistory => "market_history"@,
        SynchronizationStage::OptionChain => "option_chain"@,
        _ => "term_structure"@,
    }
}

/// A bound on the steps left: three for each ticker still ahead, fewer for each
/// stage of the current one already passed.
pub open spec fn synchronization_work(tickers: Seq<RefreshTicker>, p: int, stage: SynchronizationStage) -> int {
    3 * (tickers.len() - p) + match stage {
        SynchronizationStage::MarketHistory => 2int,
        SynchronizationStage::OptionChain => 1int,
        SynchronizationStage::TermStructure => 0int,
        SynchronizationStage::Done => 0int,
    }
}

proof fn lemma_next_ticker_step_fits(tickers: Seq<RefreshTicker>, p: int, at_options: bool)
    requires
        0 <= p <= tickers.len(),
    ensures
        ({
            let (q, stage) = next_ticker_step(tickers, p, at_options);
            &&& p <= q <= tickers.len()
            &&& at_options && q == p && q < tickers.len() ==> stage == SynchronizationStage::OptionChain
            &&& synchronization_stage_fits(tickers, q, stage)
            &&& stage != SynchronizationStage::TermStructure
        }),
    decreases tickers.len() - p, if at_options {
        0int
    } else {
        1int
    },
{
    if p < tickers.len() {
        if !at_options {
            if !tickers[p].historical_prices {
                lemma_next_ticker_step_fits(tickers, p, true);
            }
        } else if !tickers[p].option_snapshots {
            lemma_next_ticker_step_fits(tickers, p + 1, false);
        }
    }
}

/// A synchronization of the tracked tickers always ends: every step leaves it less
/// work, and the stage it moves to again fits its tickers.
pub proof fn lemma_synchronization_steps_shrink_the_work(
    tickers: Seq<RefreshTicker>,
    p: int,
    stage: SynchronizationStage,
    succeeded: bool,
)
    requires
        synchronization_stage_fits(tickers, p, stage),
        stage != SynchronizationStage::Done,
    ensures
        ({
            let (q, next) = after_step(tickers, p, stage, succeeded);
            &&& synchronization_stage_fits(tickers, q, next)
            &&& 0 <= synchronization_work(tickers, q, next) < synchronization_work(tickers, p, stage)
        }),
{
    if stage == SynchronizationStage::MarketHistory {
        lemma_next_ticker_step_fits(tickers, p, true);
    } else {
        lemma_next_ticker_step_fits(tickers, p + 1, false);
    }
}

/// A synchronization of the tracked tickers in progress: the tickers, where it
/// stands, and its report so far.
pub struct TrackedTickersSynchronization {
    tickers: Vec<RefreshTicker>,
    position: usize,
    stage: SynchronizationStage,
    report: TrackedTickersSynchronizationReport,
}

impl TrackedTickersSynchronization {
    pub closed spec fn tickers(&self) -> Seq<RefreshTicker> {
        self.tickers@
    }

    pub closed spec fn position(&self) -> int {
        self.position as int
    }

    pub closed spec fn stage(&self) -> SynchronizationStage {
        self.stage
    }

    pub closed spec fn spec_report(&self) -> TrackedTickersSynchronizationReport {
        self.report
    }

    pub closed spec fn wf(&self) -> bool {
        synchronization_stage_fits(self.tickers@, self.position as int, self.stage)
    }

    fn settle(&mut self, p: usize, at_options: bool)
        requires
            p <= old(self).tickers@.len(),
        ensures
            (final(self).position as int, final(self).stage) == next_ticker_step(old(self).tickers@, p as int, at_options),
            final(self).tickers == old(self).tickers,
            final(self).report == old(self).report,
    {
        let ghost goal = next_ticker_step(self.tickers@, p as int, at_options);
        let mut q = p;
        let mut at = at_options;
        while q < self.tickers.len()
            invariant
                q <= self.tickers@.len(),
                self.tickers == old(self).tickers,
                self.report == old(self).report,
                next_ticker_step(self.tickers@, q as int, at) == goal,
                goal == next_ticker_step(old(self).tickers@, p as int, at_options),
            decreases 2 * (self.tickers@.len() - q) + if at {
                0int
            } else {
                1int
            },
        {
            if !at {
                if self.tickers[q].historical_prices {
                    self.position = q;
                    self.stage = SynchronizationStage::MarketHistory;
                    return;
                }
                at = true;
            } else {
                if self.tickers[q].option_snapshots {
                    self.position = q;
                    self.stage = SynchronizationStage::OptionChain;
                    return;
                }
                q = q + 1;
                at = false;
            }
        }
        self.position = self.tickers.len();
        self.stage = SynchronizationStage::Done;
    }

    /// A synchronization over the tickers eligible for refresh, with a report that
    /// counts them.
    pub fn start(tickers: Vec<RefreshTicker>) -> (r: Self)
        ensures
            r.wf(),
            r.tickers() == tickers@,
            (r.position(), r.stage()) == next_ticker_step(tickers@, 0, false),
            r.spec_report().tickers == tickers@.len(),
            r.spec_report().items_obtained == 0,
            r.spec_report().items_stored == 0,
            r.spec_report().failures@.len() == 0,
    {
        let count = tickers.len();
        let mut r = TrackedTickersSynchronization {
            tickers,
            position: 0,
            stage: SynchronizationStage::Done,
            report: TrackedTickersSynchronizationReport::start(count),
        };
        r.settle(0, false);
        proof {
            lemma_next_ticker_step_fits(r.tickers@, 0, false);
        }
        r
    }

    /// The report so far.
    pub fn report(&self) -> (r: &TrackedTickersSynchronizationReport)
        ensures
            *r == self.spec_report(),
    {
        &self.report
    }

    /// What to do next.
    pub fn next_action(&self) -> (r: SynchronizationAction)
        requires
            self.wf(),
        ensures
            match self.stage() {
                SynchronizationStage::MarketHistory => (r matches SynchronizationAction::SynchronizeMarketHistory {
                    ticker,
                } && ticker@ == self.tickers()[self.position()].ticker@),
                SynchronizationStage::OptionChain => (r matches SynchronizationAction::SynchronizeOptionChain {
                    ticker,
                } && ticker@ == self.tickers()[self.position()].ticker@),
                SynchronizationStage::TermStructure => (r matches SynchronizationAction::SynchronizeTermStructure {
                    ticker,
                } && ticker@ == self.tickers()[self.position()].ticker@),
                SynchronizationStage::Done => r == SynchronizationAction::Finish,
            },
    {
        match self.stage {
            SynchronizationStage::MarketHistory => SynchronizationAction::SynchronizeMarketHistory {
                ticker: self.tickers[self.position].ticker.clone(),
            },
            SynchronizationStage::OptionChain => SynchronizationAction::SynchronizeOptionChain {
                ticker: self.tickers[self.position].ticker.clone(),
            },
            SynchronizationStage::TermStructure => SynchronizationAction::SynchronizeTermStructure {
                ticker: self.tickers[self.position].ticker.clone(),
            },
            SynchronizationStage::Done => SynchronizationAction::Finish,
        }
    }

    /// The step asked for succeeded: what it obtained and stored is added.
    pub fn synchronized(&mut self, step: SynchronizationReport)
        requires
            old(self).wf(),
            old(self).stage() != SynchronizationStage::Done,
            old(self).spec_report().items_obtained + step.items_obtained <= usize::MAX,
            old(self).spec_report().items_stored + step.items_stored <= u64::MAX,
        ensures
            final(self).wf(),
            final(self).tickers() == old(self).tickers(),
            final(self).spec_report().items_obtained == old(self).spec_report().items_obtained + step.items_obtained,
            final(self).spec_report().items_stored == old(self).spec_report().items_stored + step.items_stored,
            final(self).spec_report().tickers == old(self).spec_report().tickers,
            final(self).spec_report().failures == old(self).spec_report().failures,
            (final(self).position(), final(self).stage()) == after_step(
                old(self).tickers(),
                old(self).position(),
                old(self).stage(),
                true,
            ),
    {
        self.report.add(step);
        self.advance(true);
    }

    /// The step asked for failed: the failure is recorded under the ticker and the
    /// step's name.
    pub fn failed(&mut self, error: &PortError)
        requires
            old(self).wf(),
            old(self).stage() != SynchronizationStage::Done,
        ensures
            final(self).wf(),
            final(self).tickers() == old(self).tickers(),
            final(self).spec_report().items_obtained == old(self).spec_report().items_obtained,
            final(self).spec_report().items_stored == old(self).spec_report().items_stored,
            final(self).spec_report().tickers == old(self).spec_report().tickers,
            final(self).spec_report().failures@.len() == old(self).spec_report().failures@.len() + 1,
            final(self).spec_report().failures@.drop_last() == old(self).spec_report().failures@,
            final(self).spec_report().failures@.last().ticker@ == old(self).tickers()[old(self).position()].ticker@,
            final(self).spec_report().failures@.last().operation@ == synchronization_operation(old(self).stage()),
            final(self).spec_report().failures@.last().error@ == port_error_text(*error),
            (final(self).position(), final(self).stage()) == after_step(
                old(self).tickers(),
                old(self).position(),
                old(self).stage(),
                false,
            ),
    {
        let p = self.position;
        let operation = match self.stage {
            SynchronizationStage::MarketHistory => "market_history",
            SynchronizationStage::OptionChain => "option_chain",
            _ => "term_structure",
        };
        self.report.fail(self.tickers[p].ticker.as_str(), operation, error);
        self.advance(false);
    }

    fn advance(&mut self, succeeded: bool)
        requires
            old(self).wf(),
            old(self).stage != SynchronizationStage::Done,
        ensures
            final(self).wf(),
            final(self).tickers == old(self).tickers,
            final(self).report == old(self).report,
            (final(self).position as int, final(self).stage) == after_step(
                old(self).tickers@,
                old(self).position as int,
                old(self).stage,
                succeeded,
            ),
    {
        let p = self.position;
        let count = self.tickers.len();
        let following = if p < count {
            p + 1
        } else {
            count
        };
        proof {
            lemma_synchronization_steps_shrink_the_work(self.tickers@, p as int, self.stage, succeeded);
        }
        match self.stage {
            SynchronizationStage::MarketHistory => {
                self.settle(p, true);
            },
            SynchronizationStage::OptionChain => {
                if succeeded {
                    self.stage = SynchronizationStage::TermStructure;
                } else {
                    self.settle(following, false);
                }
            },
            _ => {
                self.settle(following, false);
            },
        }
    }
}

} // verus!
