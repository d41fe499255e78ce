//! Microsecond quantities and smoothed latency estimates.

use std::time::Duration;
use vstd::prelude::*;

pub mod estimator;
pub mod revealer;

verus! {

/// The number of nanoseconds that a `Duration` spans.
pub uninterp spec fn duration_nanos(d: Duration) -> nat;

/// The number of whole microseconds that a `Duration` spans.
pub open spec fn duration_micros(d: Duration) -> nat {
    duration_nanos(d) / 1000
}

/// `Duration::as_micros`: the whole microseconds of the duration, which
/// are its nanoseconds divided by a thousand with the rest dropped.
#[verifier::external_body]
fn duration_as_micros(d: Duration) -> (r: u128)
    ensures
        r == duration_nanos(d) / 1000,
{
    d.as_micros()
}

/// `Duration::from_micros`: a duration of exactly the given microseconds.
#[verifier::external_body]
fn duration_from_micros(micros: u64) -> (d: Duration)
    ensures
        duration_nanos(d) == micros * 1000,
{
    Duration::from_micros(micros)
}

/// A number of microseconds.
///
/// The largest number of microseconds that can be represented is just
/// over 71 minutes.
#[derive(Clone, Copy, Debug, PartialEq, Eq, Structural, PartialOrd, Ord)]
pub struct Micros(u32);

impl View for Micros {
    type V = nat;

    open spec fn view(&self) -> nat {
        self.value() as nat
    }
}

impl Micros {
    /// No time at all.
    pub fn zero() -> (r: Micros)
        ensures
            r.value() == 0,
    {
        Micros(0)
    }

    /// The raw count, for use in contracts.
    pub closed spec fn value(&self) -> u32 {
        self.0
    }

    pub fn as_value(&self) -> (r: u32)
        ensures
            r == self.value(),
    {
        self.0
    }

    pub fn from_micros(value: u32) -> (r: Micros)
        ensures
            r.value() == value,
    {
        Micros(value)
    }

    /// Converts a duration that spans at most `u32::MAX` microseconds.
    pub fn from_duration(value: Duration) -> (r: Micros)
        requires
            duration_micros(value) <= u32::MAX,
        ensures
            r.value() == duration_micros(value),
    {
        let micros: u128 = duration_as_micros(value);
        Micros(micros as u32)
    }

    /// Converts a duration, or gives `None` where it spans more than
    /// `u32::MAX` microseconds.
    pub fn checked_from_duration(value: Duration) -> (r: Option<Micros>)
        ensures
            r.is_some() == (duration_micros(value) <= u32::MAX),
            r.is_some() ==> r.unwrap().value() == duration_micros(value),
    {
        let micros: u128 = duration_as_micros(value);
        if micros <= 0xffff_ffff {
            Some(Micros::from_duration(value))
        } else {
            None
        }
    }

    pub fn to_duration(&self) -> (d: Duration)
        ensures
            duration_nanos(d) == self.value() * 1000,
    {
        duration_from_micros(self.0 as u64)
    }

    pub fn saturating_add(self, rhs: Micros) -> (r: Micros)
        ensures
            r.value() == if self.value() + rhs.value() > u32::MAX {
                u32::MAX as int
            } else {
                self.value() + rhs.value()
            },
    {
        Micros(self.0.saturating_add(rhs.0))
    }

    pub fn saturating_sub(self, rhs: Micros) -> (r: Micros)
        ensures
            r.value() == if self.value() < rhs.value() {
                0
            } else {
                self.value() - rhs.value()
            },
    {
        Micros(self.0.saturating_sub(rhs.0))
    }

    /// Shifts left, dropping the bits that leave the 32-bit range.
    pub fn shl(self, rhs: u8) -> (r: Micros)
        requires
            rhs < 32,
        ensures
            r.value() == self.value() << rhs,
    {
        Micros(self.0 << rhs)
    }

    pub fn shr(self, rhs: u8) -> (r: Micros)
        requires
            rhs < 32,
        ensures
            r.value() == self.value() >> rhs,
    {
        Micros(self.0 >> rhs)
    }

    /// Integer division of the count.
    pub fn div(self, rhs: u32) -> (r: Micros)
        requires
            rhs != 0,
        ensures
            r.value() == self.value() / rhs,
    {
        Micros(self.0 / rhs)
    }

    /// The count taken `rhs` times, where that fits in 32 bits.
    pub fn mul(self, rhs: u32) -> (r: Micros)
        requires
            self.value() * rhs <= u32::MAX,
        ensures
            r.value() == self.value() * rhs,
    {
        Micros(self.0 * rhs)
    }

    /// The difference of two counts, the larger one first.
    pub fn sub(self, rhs: Micros) -> (r: Micros)
        requires
            rhs.value() <= self.value(),
        ensures
            r.value() == self.value() - rhs.value(),
    {
        Micros(self.0 - rhs.0)
    }
}

} // verus!
