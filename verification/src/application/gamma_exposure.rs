//! Gamma-exposure use cases.

use vstd::prelude::*;
use crate::port::PortError;
use crate::time::UtcInstant;
use super::{checked_ticker, ticker_outcome};
use super::option_snapshot_enrichment::OptionSnapshotEnrichment;

verus! {

/// Computes gamma exposure from intraday or stored option chains.
pub struct GammaExposureApplication<Calendar, IntradayOptions, StoredOptions, Specifications, YieldCurves> {
    calendar: Calendar,
    intraday_options: IntradayOptions,
    stored_options: StoredOptions,
    intraday_enrichment: OptionSnapshotEnrichment<Specifications>,
    yield_curves: YieldCurves,
}

impl<Calendar, IntradayOptions, StoredOptions, Specifications, YieldCurves> GammaExposureApplication<
    Calendar,
    IntradayOptions,
    StoredOptions,
    Specifications,
    YieldCurves,
> {
    /// The collaborators the use case was built with, in the order `new` takes them.
    pub closed spec fn parts(&self) -> (Calendar, IntradayOptions, StoredOptions, Specifications, YieldCurves) {
        (
            self.calendar,
            self.intraday_options,
            self.stored_options,
            self.intraday_enrichment.parts(),
            self.yield_curves,
        )
    }

    pub fn new(
        calendar: Calendar,
        intraday_options: IntradayOptions,
        stored_options: StoredOptions,
        specifications: Specifications,
        yield_curves: YieldCurves,
    ) -> (r: Self)
        ensures
            r.parts() == (calendar, intraday_options, stored_options, specifications, yield_curves),
    {
        GammaExposureApplication {
            calendar,
            intraday_options,
            stored_options,
            intraday_enrichment: OptionSnapshotEnrichment::new(specifications),
            yield_curves,
        }
    }

    /// The resolver of contract specifications used to enrich intraday chains.
    pub fn contract_specifications(&self) -> (r: &Specifications)
        ensures
            *r == self.parts().3,
    {
        self.intraday_enrichment.contract_specifications()
    }
}

/// The requested ticker, trimmed and upper-cased, of ASCII letters, digits and `^`.
pub fn normalized_ticker(ticker: &str) -> (r: Result<String, PortError>)
    ensures
        ticker_outcome(ticker@, "^"@, "ticker must contain only ASCII letters, digits, or '^'"@, r),
{
    checked_ticker(ticker, "^", "ticker must contain only ASCII letters, digits, or '^'")
}

/// A profile is sampled at an odd number of spots, from 21 to 201, so that the
/// middle point falls on the current spot.
pub fn check_profile_points(points: usize) -> (r: Result<(), PortError>)
    ensures
        r is Ok <==> (21 <= points <= 201 && points % 2 == 1),
        r matches Err(e) ==> (e matches PortError::InvalidRequest(m) && m@
            == "points must be an odd number between 21 and 201"@),
{
    if points < 21 || points > 201 || points % 2 == 0 {
        return Err(PortError::InvalidRequest("points must be an odd number between 21 and 201".to_owned()));
    }
    Ok(())
}

/// Whole minutes from `from` to `to`, rounded towards zero.
pub open spec fn spec_minutes_until(from: UtcInstant, to: UtcInstant) -> int {
    let d = to.micros - from.micros;
    if d >= 0 {
        d / 60_000_000
    } else {
        -((-d) / 60_000_000)
    }
}

/// The whole minutes left until an expiration, counted as a time span counts
/// them (rounded towards zero); an expiration with none left is not modeled.
pub fn minutes_until(from: UtcInstant, to: UtcInstant) -> (r: i64)
    ensures
        r == spec_minutes_until(from, to),
{
    let d: i128 = to.micros as i128 - from.micros as i128;
    if d >= 0 {
        (d / 60_000_000) as i64
    } else {
        let m: i128 = (0 - d) / 60_000_000;
        (0 - m) as i64
    }
}

} // verus!
