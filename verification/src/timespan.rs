//! Spans of time, stored as whole microseconds.
//!
//! Chapter and book durations must survive a round trip through collaborators
//! whose native interval resolution is the microsecond, so the library keeps
//! every duration as a `u64` count of microseconds and never converts through
//! a coarser unit.  Arithmetic saturates at the representable maximum instead
//! of wrapping or panicking.

use vstd::prelude::*;

verus! {

/// The largest value a span can hold, in microseconds.
pub open spec fn span_max() -> int {
    u64::MAX as int
}

/// Clamp a mathematical number of microseconds to the representable range.
pub open spec fn clamp_span(n: int) -> int {
    if n > span_max() {
        span_max()
    } else {
        n
    }
}

/// A non-negative span of time with microsecond resolution.
#[derive(Clone, Copy, Debug, PartialEq, Eq, Structural)]
pub struct TimeSpan {
    pub micros: u64,
}

impl TimeSpan {
    pub fn zero() -> (r: TimeSpan)
        ensures
            r.micros == 0,
    {
        TimeSpan { micros: 0 }
    }

    pub fn from_micros(micros: u64) -> (r: TimeSpan)
        ensures
            r.micros == micros,
    {
        TimeSpan { micros }
    }

    /// Convert whole milliseconds, saturating at the representable maximum.
    pub fn from_millis(millis: u64) -> (r: TimeSpan)
        ensures
            r.micros == clamp_span(millis * 1000),
    {
        match millis.checked_mul(1000) {
            Some(m) => TimeSpan { micros: m },
            None => TimeSpan { micros: u64::MAX },
        }
    }

    /// Convert whole seconds, saturating at the representable maximum.
    pub fn from_secs(secs: u64) -> (r: TimeSpan)
        ensures
            r.micros == clamp_span(secs * 1_000_000),
    {
        match secs.checked_mul(1_000_000) {
            Some(m) => TimeSpan { micros: m },
            None => TimeSpan { micros: u64::MAX },
        }
    }

    /// Saturating addition.
    pub fn add(self, other: TimeSpan) -> (r: TimeSpan)
        ensures
            r.micros == clamp_span(self.micros + other.micros),
    {
        TimeSpan { micros: self.micros.saturating_add(other.micros) }
    }

    /// Subtraction, stopping at zero when `other` is the longer span.
    pub fn sub(self, other: TimeSpan) -> (r: TimeSpan)
        ensures
            r.micros == if self.micros >= other.micros {
                self.micros - other.micros
            } else {
                0
            },
    {
        TimeSpan { micros: self.micros.saturating_sub(other.micros) }
    }

    pub fn as_micros(self) -> (r: u64)
        ensures
            r == self.micros,
    {
        self.micros
    }
}

} // verus!
