//! An estimator for tracking mean latency given a sequence of measurements.
//!
//! The algorithm is the exponential smoothing that Van Jacobson introduced
//! for TCP round-trip times, in scaled unsigned integer arithmetic.

use super::Micros;
use vstd::prelude::*;

verus! {

/// The value of `x` confined to what 32 unsigned bits hold.
pub open spec fn clamp_u32(x: int) -> u32 {
    if x < 0 {
        0u32
    } else if x > u32::MAX {
        u32::MAX
    } else {
        x as u32
    }
}

/// The distance between two counts.
pub open spec fn abs_diff(a: u32, b: u32) -> u32 {
    if a < b {
        (b - a) as u32
    } else {
        (a - b) as u32
    }
}

/// The scaled estimate after one measurement: the old scaled estimate moved
/// by the signed error between the measurement and the old smoothed value,
/// and held within 32 bits.
pub open spec fn smooth_step(scaled: u32, shift: u8, value: u32) -> u32 {
    clamp_u32(scaled + value - (scaled >> shift))
}

/// A generic estimator employing exponential smoothing and using scaled,
/// unsigned integer arithmetic.
///
/// `S` is the number of bits to shift for the smoothing factor: 3 for a
/// factor of 1/8, 2 for a factor of 1/4.
pub struct ScaledUnsignedEstimator<const S: u8, T> {
    scaled: T,
}

impl<const S: u8> ScaledUnsignedEstimator<S, Micros> {
    /// The estimate in its scaled form.
    pub closed spec fn scaled(&self) -> u32 {
        self.scaled.value()
    }

    /// The smoothed estimate, as contracts see it.
    pub open spec fn smoothed_value(&self) -> u32 {
        self.scaled() >> S
    }

    /// Create a new estimator from an initial measurement.
    pub fn new(value: Micros) -> (r: Self)
        requires
            S < 32,
        ensures
            r.scaled() == value.value() << S,
    {
        ScaledUnsignedEstimator { scaled: value.shl(S) }
    }

    /// Return the smoothed estimate of all prior recorded measurements.
    pub fn smoothed(&self) -> (r: Micros)
        requires
            S < 32,
        ensures
            r.value() == self.smoothed_value(),
    {
        self.scaled.shr(S)
    }

    /// Update the estimate based on a new measurement, and return the
    /// absolute error of the measurement against the prior estimate.
    pub fn record(&mut self, value: Micros) -> (r: Micros)
        requires
            S < 32,
        ensures
            r.value() == abs_diff(value.value(), old(self).smoothed_value()),
            final(self).scaled() == smooth_step(old(self).scaled(), S, value.value()),
    {
        let mean = self.smoothed();
        if value.as_value() < mean.as_value() {
            let abs_error = mean.sub(value);
            self.scaled = self.scaled.saturating_sub(abs_error);
            abs_error
        } else if value.as_value() == mean.as_value() {
            Micros::zero()
        } else {
            let abs_error = value.sub(mean);
            self.scaled = self.scaled.saturating_add(abs_error);
            abs_error
        }
    }
}

/// What a `LatencyEstimator` holds once it has a sample: the scaled mean
/// (shifted by 3 bits) and the scaled mean deviation (shifted by 2 bits).
pub ghost struct LatencyModel {
    pub mean_scaled: u32,
    pub deviation_scaled: u32,
}

/// The model after the first measurement.
pub open spec fn first_sample(value: u32) -> LatencyModel {
    LatencyModel { mean_scaled: value << 3u8, deviation_scaled: (value / 2) << 2u8 }
}

/// The model after a later measurement.
pub open spec fn next_sample(m: LatencyModel, value: u32) -> LatencyModel {
    LatencyModel {
        mean_scaled: smooth_step(m.mean_scaled, 3, value),
        deviation_scaled: smooth_step(
            m.deviation_scaled,
            2,
            abs_diff(value, m.mean_scaled >> 3u8),
        ),
    }
}

/// The model after a measurement, whatever came before.
pub open spec fn recorded(m: Option<LatencyModel>, value: u32) -> Option<LatencyModel> {
    match m {
        None => Some(first_sample(value)),
        Some(prior) => Some(next_sample(prior, value)),
    }
}

struct Inner {
    mean: ScaledUnsignedEstimator<3, Micros>,
    deviation: ScaledUnsignedEstimator<2, Micros>,
}

/// Tracks the mean latency and its deviation given an online sequence of
/// measurements, as RFC 6298 computes a round-trip time.
pub struct LatencyEstimator {
    inner: Option<Inner>,
}

impl View for LatencyEstimator {
    type V = Option<LatencyModel>;

    closed spec fn view(&self) -> Option<LatencyModel> {
        match self.inner {
            None => None,
            Some(inner) => Some(
                LatencyModel {
                    mean_scaled: inner.mean.scaled(),
                    deviation_scaled: inner.deviation.scaled(),
                },
            ),
        }
    }
}

impl LatencyEstimator {
    /// Creates a new estimator.
    pub fn new() -> (r: Self)
        ensures
            r@.is_none(),
    {
        LatencyEstimator { inner: None }
    }

    pub fn has_sample(&self) -> (r: bool)
        ensures
            r == self@.is_some(),
    {
        self.inner.is_some()
    }

    /// Update the estimate based on a new measurement.
    pub fn record(&mut self, value: Micros)
        ensures
            final(self)@ == recorded(old(self)@, value.value()),
    {
        match self.inner.take() {
            None => {
                self.inner = Some(
                    Inner {
                        mean: ScaledUnsignedEstimator::<3, Micros>::new(value),
                        deviation: ScaledUnsignedEstimator::<2, Micros>::new(value.div(2)),
                    },
                );
            },
            Some(mut inner) => {
                let abs_error = inner.mean.record(value);
                let _ = inner.deviation.record(abs_error);
                self.inner = Some(inner);
            },
        }
    }

    /// Return the estimate of the mean of all prior recorded measurements.
    pub fn mean(&self) -> (r: Micros)
        requires
            self@.is_some(),
        ensures
            r.value() == self@.unwrap().mean_scaled >> 3u8,
    {
        self.assume_recorded().mean.smoothed()
    }

    /// Return the estimate of the mean deviation of all prior recorded
    /// measurements.
    ///
    /// Mean deviation is a more conservative estimate of variation than
    /// standard deviation and is easier to compute.
    pub fn deviation(&self) -> (r: Micros)
        requires
            self@.is_some(),
        ensures
            r.value() == self@.unwrap().deviation_scaled >> 2u8,
    {
        self.assume_recorded().deviation.smoothed()
    }

    fn assume_recorded(&self) -> (r: &Inner)
        requires
            self@.is_some(),
        ensures
            self.inner == Some(*r),
    {
        self.inner.as_ref().unwrap()
    }
}

impl Default for LatencyEstimator {
    fn default() -> (r: Self)
        ensures
            r@.is_none(),
    {
        LatencyEstimator::new()
    }
}

} // verus!
