//! Per-call-site latency statistics, and the rule that decides which
//! measurements are worth reporting.

use super::estimator::{recorded, LatencyEstimator, LatencyModel};
use super::Micros;
use vstd::prelude::*;

verus! {

/// A measurement at or below this many microseconds is never reported.
pub const QUIET_BELOW: u32 = 500;

/// A measurement above this many microseconds is reported whatever the
/// average.
pub const ALWAYS_ABOVE: u32 = 5000;

/// An average at or below this many microseconds is too small to compare
/// against.
pub const AVERAGE_FLOOR: u32 = 50;

/// How many times the average a measurement must exceed to be reported.
pub const AVERAGE_FACTOR: u32 = 20;

/// A file and a line in it.
#[derive(Clone, Copy, Debug)]
pub struct FileLine(pub &'static str, pub u32);

/// Where in the source a measured call stands.
#[derive(Clone, Copy, Debug)]
pub struct SourceLocation {
    pub func: &'static str,
    pub module: &'static str,
    pub file: FileLine,
}

/// Why a measurement is reported.
#[derive(Clone, Copy, Debug, PartialEq, Eq, Structural)]
pub enum RevealReason {
    /// It is larger than every measurement before it.
    ExceededPriorMax,
    /// It is larger than the fixed threshold.
    ExceededThreshold,
    /// It is larger than twenty times the running average.
    ExceededAverage,
}

/// A measurement worth reporting, with the statistics it was held against.
#[derive(Clone, Copy, Debug)]
pub struct Revelation {
    pub reason: RevealReason,
    pub latency: u32,
    pub iterations: usize,
    pub avg: u32,
    pub dev: u32,
    pub prior_max: u32,
    pub location: SourceLocation,
}

/// The largest measurement so far as a plain count, 0 where there is none.
pub open spec fn prior_max_of(max: Option<u32>) -> u32 {
    match max {
        Some(m) => m,
        None => 0,
    }
}

/// Why, if at all, a measurement of `latency` microseconds is reported
/// against the largest measurement and the estimates that precede it.
pub open spec fn reveal_reason(
    max: Option<u32>,
    avg: Option<LatencyModel>,
    latency: u32,
) -> Option<RevealReason> {
    if latency > QUIET_BELOW && avg.is_some() {
        let mean = avg.unwrap().mean_scaled >> 3u8;
        if latency > prior_max_of(max) {
            Some(RevealReason::ExceededPriorMax)
        } else if latency > ALWAYS_ABOVE {
            Some(RevealReason::ExceededThreshold)
        } else if mean > AVERAGE_FLOOR && latency > mean * AVERAGE_FACTOR {
            Some(RevealReason::ExceededAverage)
        } else {
            None
        }
    } else {
        None
    }
}

/// The largest measurement once `latency` has been seen.
pub open spec fn max_after(max: Option<u32>, latency: u32) -> Option<u32> {
    if latency > prior_max_of(max) {
        Some(latency)
    } else {
        max
    }
}

/// The statistics of one call site.
pub struct CallSiteStats {
    location: SourceLocation,
    max: Option<Micros>,
    avg: LatencyEstimator,
}

impl CallSiteStats {
    /// The largest measurement recorded so far.
    pub closed spec fn max(&self) -> Option<u32> {
        match self.max {
            Some(m) => Some(m.value()),
            None => None,
        }
    }

    /// The running estimates.
    pub closed spec fn avg(&self) -> Option<LatencyModel> {
        self.avg@
    }

    /// The call site.
    pub closed spec fn location(&self) -> SourceLocation {
        self.location
    }

    pub fn new(location: SourceLocation) -> (r: Self)
        ensures
            r.max().is_none(),
            r.avg().is_none(),
            r.location() == location,
    {
        CallSiteStats { location, max: None, avg: LatencyEstimator::new() }
    }

    /// Takes one measurement into the statistics and says whether it is
    /// worth reporting: the report carries the estimates and the maximum as
    /// they stood before this measurement.
    pub fn maybe_reveal(&mut self, latency: Micros, iterations: usize) -> (r: Option<Revelation>)
        ensures
            final(self).location() == old(self).location(),
            final(self).max() == max_after(old(self).max(), latency.value()),
            final(self).avg() == recorded(old(self).avg(), latency.value()),
            r.is_some() == reveal_reason(old(self).max(), old(self).avg(), latency.value()).is_some(),
            r.is_some() ==> r.unwrap() == (Revelation {
                reason: reveal_reason(old(self).max(), old(self).avg(), latency.value()).unwrap(),
                latency: latency.value(),
                iterations,
                avg: old(self).avg().unwrap().mean_scaled >> 3u8,
                dev: old(self).avg().unwrap().deviation_scaled >> 2u8,
                prior_max: prior_max_of(old(self).max()),
                location: old(self).location(),
            }),
    {
        let prior_max: u32 = match self.max {
            Some(m) => m.as_value(),
            None => 0,
        };
        let value: u32 = latency.as_value();
        let prior_max_exceeded = value > prior_max;
        let mut report: Option<Revelation> = None;

        if value > QUIET_BELOW && self.avg.has_sample() {
            let avg: u32 = self.avg.mean().as_value();
            let dev: u32 = self.avg.deviation().as_value();
            let reason: Option<RevealReason> = if prior_max_exceeded {
                Some(RevealReason::ExceededPriorMax)
            } else if value > ALWAYS_ABOVE {
                Some(RevealReason::ExceededThreshold)
            } else if avg > AVERAGE_FLOOR && (value as u64) > (avg as u64) * (AVERAGE_FACTOR as u64) {
                Some(RevealReason::ExceededAverage)
            } else {
                None
            };
            if let Some(reason) = reason {
                report = Some(
                    Revelation {
                        reason,
                        latency: value,
                        iterations,
                        avg,
                        dev,
                        prior_max,
                        location: self.location,
                    },
                );
            }
        }
        if prior_max_exceeded {
            self.max = Some(latency);
        }
        self.avg.record(latency);
        report
    }
}

/// Counts the iterations of one measured run at a call site.
pub struct CallSiteUsage {
    iteration_count: usize,
}

impl CallSiteUsage {
    /// The iterations counted so far.
    pub closed spec fn iterations(&self) -> nat {
        self.iteration_count as nat
    }

    pub fn new() -> (r: Self)
        ensures
            r.iterations() == 0,
    {
        CallSiteUsage { iteration_count: 0 }
    }

    pub fn record_iteration(&mut self)
        requires
            old(self).iterations() < usize::MAX,
        ensures
            final(self).iterations() == old(self).iterations() + 1,
    {
        self.iteration_count += 1;
    }

    /// Ends the run: hands the measured latency and the iterations counted
    /// to the call site's statistics.
    pub fn finish(self, stats: &mut CallSiteStats, latency: Micros) -> (r: Option<Revelation>)
        ensures
            final(stats).location() == old(stats).location(),
            final(stats).max() == max_after(old(stats).max(), latency.value()),
            final(stats).avg() == recorded(old(stats).avg(), latency.value()),
            r.is_some() == reveal_reason(old(stats).max(), old(stats).avg(), latency.value()).is_some(),
            r.is_some() ==> r.unwrap() == (Revelation {
                reason: reveal_reason(old(stats).max(), old(stats).avg(), latency.value()).unwrap(),
                latency: latency.value(),
                iterations: self.iterations() as usize,
                avg: old(stats).avg().unwrap().mean_scaled >> 3u8,
                dev: old(stats).avg().unwrap().deviation_scaled >> 2u8,
                prior_max: prior_max_of(old(stats).max()),
                location: old(stats).location(),
            }),
    {
        stats.maybe_reveal(latency, self.iteration_count)
    }
}

} // verus!
