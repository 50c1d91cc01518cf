//! A MoQ transport session: what it knows, and when it closes the transport.

use crate::error::Failure;
use crate::link::LinkStats;
use std::sync::atomic::AtomicU64;
use std::sync::Arc;
use vstd::prelude::*;

verus! {

/// A version of the protocol.
#[derive(Clone, Copy, Debug, PartialEq, Eq, Structural)]
pub enum Version {
    /// The third draft, the first in which a subscriber is told a receive rate.
    Lite03,
    /// Any other version, by its number.
    Other(u64),
}

/// What a transport is closed with.
#[derive(Debug)]
pub struct CloseFrame {
    pub code: u32,
    pub reason: String,
}

/// A MoQ transport session. The transport itself is held by the caller, who
/// closes it whenever a frame is returned.
#[derive(Clone)]
pub struct Session {
    version: Version,
    closed: bool,
    estimated_recv_rate: Arc<AtomicU64>,
}

/// What a [`Session`] knows.
pub struct SessionView {
    pub version: Version,
    pub closed: bool,
    /// Where the receive rate is kept.
    pub rate: Arc<AtomicU64>,
}

impl SessionView {
    /// Whether the transport is yet to be closed.
    pub open spec fn owes_close(self) -> bool {
        !self.closed
    }

    /// The session after it was closed.
    pub open spec fn shut(self) -> Self {
        SessionView { closed: true, ..self }
    }
}

impl View for Session {
    type V = SessionView;

    closed spec fn view(&self) -> SessionView {
        SessionView {
            version: self.version,
            closed: self.closed,
            rate: self.estimated_recv_rate,
        }
    }
}

/// Whether a relaxed load of a counter can give a number.
pub open spec fn loads(counter: AtomicU64, n: u64) -> bool {
    call_ensures(AtomicU64::load, (&counter, std::sync::atomic::Ordering::Relaxed), n)
}

/// A receive rate out of its counter, which is zero until a rate is known.
pub fn received_rate(counter: u64) -> (r: Option<u64>)
    ensures
        r == (if counter == 0 {
            None
        } else {
            Some(counter)
        }),
{
    if counter == 0 {
        None
    } else {
        Some(counter)
    }
}

impl Session {
    /// A session that is open and knows no receive rate: its counter starts at zero.
    pub fn new(version: Version) -> (r: Self)
        ensures
            r@.version == version,
            r@.owes_close(),
            call_ensures(AtomicU64::new, (0u64,), *r@.rate),
    {
        Session { version, closed: false, estimated_recv_rate: Arc::new(AtomicU64::new(0)) }
    }

    /// The session with the receive rate kept in the given place.
    pub fn with_recv_rate(self, rate: Arc<AtomicU64>) -> (r: Self)
        ensures
            r@ == (SessionView { rate, ..self@ }),
    {
        let mut session = self;
        session.estimated_recv_rate = rate;
        session
    }

    /// Returns the negotiated protocol version.
    pub fn version(&self) -> (r: Version)
        ensures
            r == self@.version,
    {
        self.version
    }

    /// Returns the estimated send rate in bits/second from the QUIC congestion
    /// controller, out of a reading of the transport. Returns `None` if the
    /// transport doesn't support this metric.
    pub fn estimated_send_rate(&self, transport: &LinkStats) -> (r: Option<u64>)
        ensures
            r == transport.estimated_send_rate,
    {
        transport.estimated_send_rate
    }

    /// Returns the estimated receive rate in bits/second from probe messages.
    /// Returns `None` if no probe data has been received yet, never a rate of
    /// zero: it is what a load of the counter of this session gave. Which rate was
    /// stored last is up to whoever shares the counter.
    pub fn estimated_recv_rate(&self) -> (r: Option<u64>)
        ensures
            match r {
                None => loads(*self@.rate, 0),
                Some(rate) => rate != 0 && loads(*self@.rate, rate),
            },
    {
        received_rate(self.estimated_recv_rate.load(std::sync::atomic::Ordering::Relaxed))
    }

    /// Closes the session. The first time, returns what to close the transport with.
    pub fn close(&mut self, err: Failure) -> (r: Option<CloseFrame>)
        ensures
            final(self)@ == old(self)@.shut(),
            r is Some == old(self)@.owes_close(),
            r matches Some(frame) ==> frame.code == err.code && frame.reason == err.message,
    {
        if self.closed {
            return None;
        }
        self.closed = true;
        Some(CloseFrame { code: err.code, reason: err.message })
    }

    /// What to close the transport with when the session is dropped: nothing if
    /// it was closed before, else the code of a cancelled session.
    pub fn dropped(&self, cancel_code: u32) -> (r: Option<CloseFrame>)
        ensures
            r is Some == self@.owes_close(),
            r matches Some(frame) ==> frame.code == cancel_code && frame.reason@ == "dropped"@,
    {
        if self.closed {
            return None;
        }
        Some(CloseFrame { code: cancel_code, reason: "dropped".to_owned() })
    }
}

} // verus!
