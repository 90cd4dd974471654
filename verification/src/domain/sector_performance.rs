//! The sector catalog and the trading-session length of each comparison period.

use vstd::prelude::*;

verus! {

/// The broad-market fund every sector is compared with.
pub const SECTOR_BENCHMARK_TICKER: &'static str = "SPY";

#[derive(Debug, Clone, Copy, PartialEq, Eq)]
pub struct Sector {
    pub name: &'static str,
    pub etf: &'static str,
}

/// The fund tickers of the eleven S&P 500 sectors, in catalog order.
pub open spec fn sector_etfs() -> Seq<Seq<char>> {
    seq![
        "XLK"@,
        "XLF"@,
        "XLE"@,
        "XLI"@,
        "XLV"@,
        "XLY"@,
        "XLC"@,
        "XLP"@,
        "XLB"@,
        "XLU"@,
        "XLRE"@,
    ]
}

/// The eleven S&P 500 sectors with the fund that tracks each of them.
pub fn sectors() -> (r: [Sector; 11])
    ensures
        r@.len() == 11,
        forall|i: int| 0 <= i < 11 ==> #[trigger] r@[i].etf@ == sector_etfs()[i],
{
    [
        Sector { name: "Tecnologia", etf: "XLK" },
        Sector { name: "Financeiro", etf: "XLF" },
        Sector { name: "Energia", etf: "XLE" },
        Sector { name: "Industrial", etf: "XLI" },
        Sector { name: "Saúde", etf: "XLV" },
        Sector { name: "Consumo discricionário", etf: "XLY" },
        Sector { name: "Comunicações", etf: "XLC" },
        Sector { name: "Bens essenciais", etf: "XLP" },
        Sector { name: "Materiais", etf: "XLB" },
        Sector { name: "Utilities", etf: "XLU" },
        Sector { name: "Imobiliário", etf: "XLRE" },
    ]
}

/// No fund appears twice in the sector catalog.
pub proof fn lemma_sector_etfs_are_distinct()
    ensures
        forall|i: int, j: int|
            0 <= i < j < 11 ==> #[trigger] sector_etfs()[i] != #[trigger] sector_etfs()[j],
{
    reveal_strlit("XLK");
    reveal_strlit("XLF");
    reveal_strlit("XLE");
    reveal_strlit("XLI");
    reveal_strlit("XLV");
    reveal_strlit("XLY");
    reveal_strlit("XLC");
    reveal_strlit("XLP");
    reveal_strlit("XLB");
    reveal_strlit("XLU");
    reveal_strlit("XLRE");
    assert forall|i: int, j: int| 0 <= i < j < 11 implies sector_etfs()[i] != sector_etfs()[j] by {
        let a = sector_etfs()[i];
        let b = sector_etfs()[j];
        assert(a.len() != b.len() || a[0] != b[0] || a[1] != b[1] || a[2] != b[2]);
    }
}

#[derive(Debug, Clone, Copy, PartialEq, Eq, Structural)]
pub enum SectorPerformancePeriod {
    OneWeek,
    TwoWeeks,
    OneMonth,
}

impl SectorPerformancePeriod {
    pub open spec fn spec_sessions(self) -> nat {
        match self {
            SectorPerformancePeriod::OneWeek => 5,
            SectorPerformancePeriod::TwoWeeks => 10,
            SectorPerformancePeriod::OneMonth => 21,
        }
    }

    /// How many trading sessions the period spans.
    pub fn sessions(self) -> (r: usize)
        ensures
            r == self.spec_sessions(),
    {
        match self {
            SectorPerformancePeriod::OneWeek => 5,
            SectorPerformancePeriod::TwoWeeks => 10,
            SectorPerformancePeriod::OneMonth => 21,
        }
    }
}

/// Whether a measurement is available or not.
#[derive(Debug, Clone, PartialEq)]
pub enum PerformanceState<T> {
    Available(T),
    Unavailable,
}

} // verus!
