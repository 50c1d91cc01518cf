//! What a transport connection reports about itself.

use crate::clock::Duration;
use vstd::prelude::*;

verus! {

/// A reading of the counters of a transport. A transport need not support all of them.
#[derive(Clone, Copy, Debug, PartialEq, Eq, Structural)]
pub struct LinkStats {
    pub rtt: Option<Duration>,
    pub packets_received: Option<u64>,
    pub packets_lost: Option<u64>,
    pub bytes_received: Option<u64>,
    /// Bytes that may be in flight at once.
    pub congestion_window: Option<u64>,
    /// Bits per second.
    pub estimated_send_rate: Option<u64>,
}

/// The number, or zero where there is none.
pub open spec fn known_or_zero(n: Option<u64>) -> u64 {
    match n {
        Some(n) => n,
        None => 0,
    }
}

impl LinkStats {
    /// The round-trip time in whole microseconds, as far as 64 bits hold them.
    pub open spec fn spec_rtt_us(self) -> u64 {
        match self.rtt {
            Some(d) => ((d.nanos as nat / 1_000) % 0x1_0000_0000_0000_0000) as u64,
            None => 0,
        }
    }

    /// The round-trip time in whole microseconds, as far as 64 bits hold them.
    pub fn rtt_us(&self) -> (r: u64)
        ensures
            r == self.spec_rtt_us(),
    {
        match self.rtt {
            Some(d) => ((d.nanos / 1_000) % 0x1_0000_0000_0000_0000) as u64,
            None => 0,
        }
    }
}

/// The number, or zero where there is none.
pub fn or_zero(n: Option<u64>) -> (r: u64)
    ensures
        r == known_or_zero(n),
{
    match n {
        Some(n) => n,
        None => 0,
    }
}

} // verus!
