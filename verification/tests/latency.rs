use ice_agent::latency::estimator::{LatencyEstimator, ScaledUnsignedEstimator};
use ice_agent::latency::revealer::{
    CallSiteStats, CallSiteUsage, FileLine, RevealReason, SourceLocation,
};
use ice_agent::latency::Micros;
use std::time::Duration;

fn here() -> SourceLocation {
    SourceLocation { func: "poll", module: "peer::session", file: FileLine("session.rs", 42) }
}

#[test]
fn scaled_unsigned_estimator_works() {
    let first_input = Micros::from_micros(2800);
    let inputs: [u32; 10] = [2500, 2000, 3500, 4000, 2800, 3300, 3500, 3026, 3000, 4000];
    let abs_errors: [u32; 10] = [300, 762, 833, 1229, 125, 391, 542, 0, 26, 978];
    let outputs: [u32; 10] = [2762, 2667, 2771, 2925, 2909, 2958, 3026, 3026, 3022, 3145];

    let mut estimator = ScaledUnsignedEstimator::<3, Micros>::new(first_input);
    assert_eq!(
        estimator.smoothed(),
        first_input,
        "new estimator produced wrong first estimate"
    );
    for (input, (abs_error, smoothed)) in inputs.iter().zip(abs_errors.iter().zip(outputs.iter()))
    {
        assert_eq!(
            estimator.record(Micros::from_micros(*input)),
            Micros::from_micros(*abs_error),
            "incorrect absolute error"
        );
        assert_eq!(
            estimator.smoothed(),
            Micros::from_micros(*smoothed),
            "incorrect smoothed estimate"
        );
    }
}

#[test]
fn latency_estimator_works() {
    let inputs: [u32; 15] = [
        6309, 6225, 6469, 5908, 6017, 6169, 6283, 6050, 5814, 6340, 6210, 6228, 6247, 10056, 4375,
    ];
    let means: [u32; 15] = [
        6309, 6298, 6319, 6268, 6237, 6228, 6235, 6212, 6162, 6184, 6188, 6193, 6199, 6682, 6393,
    ];
    let deviations: [u32; 15] = [
        3154, 2386, 1832, 1477, 1171, 895, 685, 560, 519, 434, 332, 259, 208, 1120, 1417,
    ];
    let mut estimator = LatencyEstimator::new();
    for (input, (mean, deviation)) in inputs.iter().zip(means.iter().zip(deviations.iter())) {
        estimator.record(Micros::from_micros(*input));
        assert_eq!(estimator.mean(), Micros::from_micros(*mean), "incorrect mean");
        assert_eq!(
            estimator.deviation(),
            Micros::from_micros(*deviation),
            "incorrect deviations"
        );
    }
}

#[test]
fn estimator_starts_without_sample() {
    let mut estimator = LatencyEstimator::new();
    assert!(!estimator.has_sample());
    assert!(!LatencyEstimator::default().has_sample());
    estimator.record(Micros::from_micros(1000));
    assert!(estimator.has_sample());
    assert_eq!(estimator.mean().as_value(), 1000);
    assert_eq!(estimator.deviation().as_value(), 500);
}

#[test]
fn scaled_estimator_saturates_at_the_top() {
    let mut estimator = ScaledUnsignedEstimator::<3, Micros>::new(Micros::from_micros(0x1fff_ffff));
    assert_eq!(estimator.smoothed().as_value(), 0x1fff_ffff);
    let err = estimator.record(Micros::from_micros(u32::MAX));
    assert_eq!(err.as_value(), u32::MAX - 0x1fff_ffff);
    assert_eq!(estimator.smoothed().as_value(), u32::MAX >> 3);
}

#[test]
fn micros_arithmetic() {
    let a = Micros::from_micros(10);
    let b = Micros::from_micros(4);
    assert_eq!(Micros::zero().as_value(), 0);
    assert_eq!(a.saturating_add(b).as_value(), 14);
    assert_eq!(Micros::from_micros(u32::MAX).saturating_add(b).as_value(), u32::MAX);
    assert_eq!(a.saturating_sub(b).as_value(), 6);
    assert_eq!(b.saturating_sub(a).as_value(), 0);
    assert_eq!(a.shl(3).as_value(), 80);
    assert_eq!(Micros::from_micros(0x8000_0001).shl(1).as_value(), 2);
    assert_eq!(a.shr(1).as_value(), 5);
    assert_eq!(a.div(3).as_value(), 3);
    assert_eq!(a.sub(b).as_value(), 6);
    assert_eq!(a.mul(20).as_value(), 200);
    assert!(b < a);
}

#[test]
fn micros_from_and_to_duration() {
    let m = Micros::from_duration(Duration::from_micros(1500));
    assert_eq!(m.as_value(), 1500);
    assert_eq!(Micros::from_duration(Duration::from_nanos(2999)).as_value(), 2);
    assert_eq!(m.to_duration(), Duration::from_micros(1500));
    assert_eq!(Micros::from_micros(7).to_duration(), Duration::from_nanos(7000));
}

#[test]
fn micros_checked_from_duration() {
    assert_eq!(
        Micros::checked_from_duration(Duration::from_micros(u32::MAX as u64)),
        Some(Micros::from_micros(u32::MAX))
    );
    assert_eq!(Micros::checked_from_duration(Duration::from_micros(u32::MAX as u64 + 1)), None);
    assert_eq!(Micros::checked_from_duration(Duration::from_secs(3)).map(|m| m.as_value()), Some(3_000_000));
}

#[test]
fn first_measurement_is_never_revealed() {
    let mut stats = CallSiteStats::new(here());
    assert!(stats.maybe_reveal(Micros::from_micros(1_000_000), 1).is_none());
}

#[test]
fn reveal_when_prior_max_exceeded() {
    let mut stats = CallSiteStats::new(here());
    assert!(stats.maybe_reveal(Micros::from_micros(600), 1).is_none());
    let r = stats.maybe_reveal(Micros::from_micros(700), 3).expect("a report");
    assert_eq!(r.reason, RevealReason::ExceededPriorMax);
    assert_eq!(r.latency, 700);
    assert_eq!(r.iterations, 3);
    assert_eq!(r.avg, 600);
    assert_eq!(r.dev, 300);
    assert_eq!(r.prior_max, 600);
    assert_eq!(r.location.func, "poll");
    assert_eq!(r.location.module, "peer::session");
    assert_eq!(r.location.file.0, "session.rs");
    assert_eq!(r.location.file.1, 42);
}

#[test]
fn reveal_when_threshold_exceeded() {
    let mut stats = CallSiteStats::new(here());
    assert!(stats.maybe_reveal(Micros::from_micros(9000), 1).is_none());
    let r = stats.maybe_reveal(Micros::from_micros(5001), 1).expect("a report");
    assert_eq!(r.reason, RevealReason::ExceededThreshold);
    assert_eq!(r.prior_max, 9000);
    assert_eq!(r.avg, 9000);
    // at the threshold itself and below the average: nothing
    assert!(stats.maybe_reveal(Micros::from_micros(5000), 1).is_none());
}

#[test]
fn reveal_when_far_above_average() {
    let mut stats = CallSiteStats::new(here());
    let mut shadow = LatencyEstimator::new();
    assert!(stats.maybe_reveal(Micros::from_micros(4900), 1).is_none());
    shadow.record(Micros::from_micros(4900));
    for _ in 0..200 {
        assert!(stats.maybe_reveal(Micros::from_micros(60), 1).is_none());
        shadow.record(Micros::from_micros(60));
    }
    let mean = shadow.mean().as_value();
    assert!(mean > 50 && mean < 100);
    // exactly twenty times the average is not above it
    assert!(stats.maybe_reveal(Micros::from_micros(20 * mean), 1).is_none());
    shadow.record(Micros::from_micros(20 * mean));
    let mean = shadow.mean().as_value();
    let dev = shadow.deviation().as_value();
    let r = stats.maybe_reveal(Micros::from_micros(20 * mean + 1), 2).expect("a report");
    assert_eq!(r.reason, RevealReason::ExceededAverage);
    assert_eq!(r.prior_max, 4900);
    assert_eq!(r.avg, mean);
    assert_eq!(r.dev, dev);
    assert_eq!(r.latency, 20 * mean + 1);
}

#[test]
fn small_average_is_not_compared_against() {
    let mut stats = CallSiteStats::new(here());
    assert!(stats.maybe_reveal(Micros::from_micros(4000), 1).is_none());
    for _ in 0..400 {
        assert!(stats.maybe_reveal(Micros::from_micros(10), 1).is_none());
    }
    // far above twenty times an average of about 10, which is below the floor
    assert!(stats.maybe_reveal(Micros::from_micros(3000), 1).is_none());
}

#[test]
fn quiet_at_or_below_five_hundred() {
    let mut stats = CallSiteStats::new(here());
    assert!(stats.maybe_reveal(Micros::from_micros(10), 1).is_none());
    assert!(stats.maybe_reveal(Micros::from_micros(500), 1).is_none());
    let r = stats.maybe_reveal(Micros::from_micros(501), 1).expect("a report");
    assert_eq!(r.reason, RevealReason::ExceededPriorMax);
    assert_eq!(r.prior_max, 500);
}

#[test]
fn usage_counts_iterations() {
    let mut stats = CallSiteStats::new(here());
    assert!(stats.maybe_reveal(Micros::from_micros(600), 1).is_none());
    let mut usage = CallSiteUsage::new();
    usage.record_iteration();
    usage.record_iteration();
    let r = usage.finish(&mut stats, Micros::from_micros(800)).expect("a report");
    assert_eq!(r.iterations, 2);
    assert_eq!(r.latency, 800);
}
