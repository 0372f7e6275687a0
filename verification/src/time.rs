//! Time values used by the supervisor.
//!
//! `Delay` is the span type that restart policies are written in: a count of
//! nanoseconds bounded by the largest span a `std::time::Duration` can hold, so
//! that every `Delay` converts to a `Duration` and back without loss.
//! `Instant` readings come from the monotonic clock and are carried through the
//! library as opaque timestamps.
use std::time::{Duration, Instant};
use vstd::prelude::*;

verus! {

/// Largest span a `std::time::Duration` can hold, in nanoseconds:
/// `u64::MAX` whole seconds plus 999_999_999 nanoseconds.
pub const MAX_DELAY_NANOS: u128 = 18_446_744_073_709_551_615_999_999_999u128;

/// Nanoseconds in one second.
pub const NANOS_PER_SEC: u128 = 1_000_000_000u128;

/// Nanoseconds in one millisecond.
pub const NANOS_PER_MILLI: u128 = 1_000_000u128;

/// A span of time with nanosecond resolution, bounded like `std::time::Duration`.
#[derive(Debug, Clone, Copy, PartialEq, Eq, Structural)]
pub struct Delay {
    nanos: u128,
}

impl Delay {
    #[verifier::type_invariant]
    spec fn within_duration_range(self) -> bool {
        self.nanos <= MAX_DELAY_NANOS
    }
}

impl View for Delay {
    type V = nat;

    /// The span in nanoseconds.
    closed spec fn view(&self) -> nat {
        self.nanos as nat
    }
}

impl Delay {
    /// The empty span.
    pub fn zero() -> (d: Delay)
        ensures
            d@ == 0,
    {
        Delay { nanos: 0 }
    }

    /// A span of `nanos` nanoseconds.
    pub fn from_nanos(nanos: u64) -> (d: Delay)
        ensures
            d@ == nanos,
    {
        Delay { nanos: nanos as u128 }
    }

    /// A span of `millis` milliseconds.
    pub fn from_millis(millis: u64) -> (d: Delay)
        ensures
            d@ == millis * NANOS_PER_MILLI,
    {
        assert(millis * NANOS_PER_MILLI <= MAX_DELAY_NANOS) by (nonlinear_arith)
            requires
                millis <= u64::MAX,
        ;
        Delay { nanos: millis as u128 * NANOS_PER_MILLI }
    }

    /// A span of `secs` whole seconds.
    pub fn from_secs(secs: u64) -> (d: Delay)
        ensures
            d@ == secs * NANOS_PER_SEC,
    {
        assert(secs * NANOS_PER_SEC <= MAX_DELAY_NANOS) by (nonlinear_arith)
            requires
                secs <= u64::MAX,
        ;
        Delay { nanos: secs as u128 * NANOS_PER_SEC }
    }

    /// A span of `secs` seconds and `subsec_nanos` nanoseconds, the parts that a
    /// `std::time::Duration` reports through `as_secs` and `subsec_nanos`.
    pub fn new(secs: u64, subsec_nanos: u32) -> (d: Delay)
        requires
            subsec_nanos < NANOS_PER_SEC,
        ensures
            d@ == secs * NANOS_PER_SEC + subsec_nanos,
    {
        assert(secs * NANOS_PER_SEC + subsec_nanos <= MAX_DELAY_NANOS) by (nonlinear_arith)
            requires
                secs <= u64::MAX,
                subsec_nanos < NANOS_PER_SEC,
        ;
        Delay { nanos: secs as u128 * NANOS_PER_SEC + subsec_nanos as u128 }
    }

    /// The span in nanoseconds.
    pub fn as_nanos(&self) -> (n: u128)
        ensures
            n == self@,
            n <= MAX_DELAY_NANOS,
    {
        proof {
            use_type_invariant(self);
        }
        self.nanos
    }

    /// The whole seconds of the span.
    pub fn as_secs(&self) -> (s: u64)
        ensures
            s == self@ / (NANOS_PER_SEC as nat),
    {
        proof {
            use_type_invariant(self);
        }
        let n = self.nanos;
        assert(n / NANOS_PER_SEC <= u64::MAX) by (nonlinear_arith)
            requires
                n <= MAX_DELAY_NANOS,
        ;
        (n / NANOS_PER_SEC) as u64
    }

    /// The nanoseconds past the whole seconds of the span.
    pub fn subsec_nanos(&self) -> (s: u32)
        ensures
            s == self@ % (NANOS_PER_SEC as nat),
            s < NANOS_PER_SEC,
    {
        (self.nanos % NANOS_PER_SEC) as u32
    }

    /// Whether the span is empty.
    pub fn is_zero(&self) -> (b: bool)
        ensures
            b == (self@ == 0),
    {
        self.nanos == 0
    }

    /// The shorter of two spans (the first one when they are equal).
    pub fn min(self, other: Delay) -> (d: Delay)
        ensures
            d@ == if self@ <= other@ { self@ } else { other@ },
    {
        if self.nanos <= other.nanos {
            self
        } else {
            other
        }
    }

    /// This span multiplied by `factor`.
    pub fn mul(self, factor: u32) -> (d: Delay)
        requires
            self@ * factor <= MAX_DELAY_NANOS,
        ensures
            d@ == self@ * factor,
    {
        proof {
            use_type_invariant(&self);
        }
        let n = self.nanos;
        assert(n * factor <= MAX_DELAY_NANOS);
        Delay { nanos: n * factor as u128 }
    }
}

/// `std::time::Instant`, a reading of the monotonic clock, carried as an opaque value.
#[verifier::external_type_specification]
#[verifier::external_body]
pub struct ExInstant(Instant);

/// Reads the monotonic clock through `std::time::Instant::now`. The reading depends
/// on the moment of the call, so nothing is stated about it.
#[verifier::external_body]
pub(crate) fn now() -> Instant {
    Instant::now()
}

/// The time elapsed since `start`, through `std::time::Instant::elapsed`. It depends
/// on the moment of the call, so nothing is stated about it.
#[verifier::external_body]
pub(crate) fn elapsed_since(start: Instant) -> Duration {
    start.elapsed()
}

} // verus!
