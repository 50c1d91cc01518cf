//! Points in time and spans of time, in nanoseconds.

use crate::binary64::Binary64;
use crate::value::{lemma_of_positive, of_int, quotient, sum, Value};
use vstd::prelude::*;

verus! {

/// A span of time.
#[derive(Clone, Copy, Debug, PartialEq, Eq, Structural)]
pub struct Duration {
    pub nanos: u128,
}

/// A reading of a clock that never runs backwards, counted from some fixed start.
#[derive(Clone, Copy, Debug, PartialEq, Eq, Structural)]
pub struct Instant {
    pub nanos: u64,
}

impl Duration {
    pub fn from_nanos(nanos: u64) -> (d: Self)
        ensures
            d.nanos == nanos,
    {
        Duration { nanos: nanos as u128 }
    }

    pub fn from_micros(micros: u64) -> (d: Self)
        ensures
            d.nanos == micros * 1_000,
    {
        Duration { nanos: (micros as u128) * 1_000 }
    }

    pub fn from_millis(millis: u64) -> (d: Self)
        ensures
            d.nanos == millis * 1_000_000,
    {
        Duration { nanos: (millis as u128) * 1_000_000 }
    }

    pub fn from_secs(secs: u64) -> (d: Self)
        ensures
            d.nanos == secs * 1_000_000_000,
    {
        Duration { nanos: (secs as u128) * 1_000_000_000 }
    }

    /// The span in seconds, with their fraction.
    pub fn as_secs(self) -> (r: Binary64)
        requires
            self.nanos / 1_000_000_000 <= u64::MAX,
        ensures
            r@ == seconds(self.nanos as nat),
    {
        let whole: u64 = (self.nanos / 1_000_000_000) as u64;
        let rest: u64 = (self.nanos % 1_000_000_000) as u64;
        proof {
            lemma_of_positive(1_000_000_000);
        }
        Binary64::from_u64(whole).plus(
            Binary64::from_u64(rest).over(Binary64::from_u64(1_000_000_000)),
        )
    }
}

/// A number of nanoseconds in seconds, as double-precision arithmetic computes it
/// from the whole seconds and the rest.
pub open spec fn seconds(nanos: nat) -> Value {
    sum(
        of_int((nanos / 1_000_000_000) as int),
        quotient(of_int((nanos % 1_000_000_000) as int), of_int(1_000_000_000)),
    )
}

/// The nanoseconds from `earlier` to `later`; zero where `earlier` is the later one.
pub open spec fn elapsed(earlier: Instant, later: Instant) -> nat {
    if later.nanos >= earlier.nanos {
        (later.nanos - earlier.nanos) as nat
    } else {
        0
    }
}

impl Instant {
    /// The instant that many nanoseconds after the start of the clock.
    pub fn from_nanos(nanos: u64) -> (r: Self)
        ensures
            r.nanos == nanos,
    {
        Instant { nanos }
    }

    /// The time from `earlier` to this instant; zero where `earlier` is the later one.
    pub fn duration_since(self, earlier: Instant) -> (d: Duration)
        ensures
            d.nanos == elapsed(earlier, self),
    {
        Duration { nanos: self.nanos.saturating_sub(earlier.nanos) as u128 }
    }

    /// The instant a span of time after this one.
    pub fn after(self, d: Duration) -> (r: Instant)
        requires
            self.nanos + d.nanos <= u64::MAX,
        ensures
            r.nanos == self.nanos + d.nanos,
    {
        Instant { nanos: self.nanos + d.nanos as u64 }
    }
}

} // verus!
