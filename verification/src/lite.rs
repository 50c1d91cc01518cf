//! How a session is driven: which bandwidth channels it has, when the send rate
//! is polled, and how the transport is closed at the end.

use crate::bandwidth::{BandwidthConsumer, BandwidthProducer};
use crate::error::{Error, Failure};
use crate::session::{CloseFrame, Version};
use vstd::prelude::*;

verus! {

/// The bandwidth channels of a session.
pub struct Channels {
    /// Where the send rate is written.
    pub send: BandwidthProducer,
    /// Where the send rate is read.
    pub send_consumer: BandwidthConsumer,
    /// Where the receive rate is written, by the subscriber.
    pub recv: Option<BandwidthProducer>,
    /// Where the receive rate is read.
    pub recv_consumer: Option<BandwidthConsumer>,
}

/// Opens the bandwidth channels of a session, each with a call of its own. A
/// receive rate exists only in the version of the protocol that carries one.
pub fn start(version: Version) -> (r: Channels)
    ensures
        call_ensures(BandwidthProducer::new, (), r.send),
        r.recv matches Some(p) ==> call_ensures(BandwidthProducer::new, (), p),
        r.send_consumer.channel() == r.send.channel(),
        r.send_consumer.last() is None,
        r.recv is Some == (version == Version::Lite03),
        r.recv_consumer is Some == (version == Version::Lite03),
        r.recv_consumer matches Some(c) ==> c.channel() == (r.recv->0).channel() && c.last() is None,
{
    let send = BandwidthProducer::new();
    let send_consumer = send.consume();
    let recv = BandwidthProducer::new();
    match version {
        Version::Lite03 => {
            let recv_consumer = recv.consume();
            Channels { send, send_consumer, recv: Some(recv), recv_consumer: Some(recv_consumer) }
        },
        Version::Other(_) => Channels { send, send_consumer, recv: None, recv_consumer: None },
    }
}

/// What to close the transport with, by how the session ended.
pub fn conclude(outcome: Result<(), Failure>) -> (r: CloseFrame)
    ensures
        match outcome {
            Ok(_) => r.code == 0 && r.reason@ == ""@,
            Err(e) => if e.error == Error::Transport {
                r.code == 1 && r.reason@ == ""@
            } else {
                r.code == e.code && r.reason == e.message
            },
        },
{
    match outcome {
        Ok(_) => CloseFrame { code: 0, reason: "".to_owned() },
        Err(e) => {
            if e.error == Error::Transport {
                CloseFrame { code: 1, reason: "".to_owned() }
            } else {
                CloseFrame { code: e.code, reason: e.message }
            }
        },
    }
}

/// How often the send rate is polled while someone wants it, in milliseconds.
pub const POLL_INTERVAL_MILLIS: u64 = 100;

/// Where the polling of the send rate stands.
#[derive(Clone, Copy, Debug, PartialEq, Eq, Structural)]
pub enum Polling {
    /// Nobody wants the send rate.
    Idle,
    /// Someone does; it is polled at every tick until nobody does any more.
    Active,
    /// The channel is closed.
    Stopped,
}

/// What happened to the channel of the send rate.
#[derive(Clone, Copy, Debug, PartialEq, Eq, Structural)]
pub enum PollEvent {
    /// The first consumer came, or the wait for it failed.
    Used { ok: bool },
    /// The last consumer went, or the wait for that failed.
    Unused { ok: bool },
    /// The rate was polled and written to the channel, or that failed.
    Written { ok: bool },
}

impl Polling {
    /// The next state. A failure ends it all; an event that is not waited for
    /// changes nothing.
    pub open spec fn spec_next(self, event: PollEvent) -> Polling {
        match (self, event) {
            (Polling::Idle, PollEvent::Used { ok }) => if ok {
                Polling::Active
            } else {
                Polling::Stopped
            },
            (Polling::Active, PollEvent::Unused { ok }) => if ok {
                Polling::Idle
            } else {
                Polling::Stopped
            },
            (Polling::Active, PollEvent::Written { ok }) => if ok {
                Polling::Active
            } else {
                Polling::Stopped
            },
            _ => self,
        }
    }

    /// The next state.
    pub fn next(self, event: PollEvent) -> (r: Polling)
        ensures
            r == self.spec_next(event),
    {
        match (self, event) {
            (Polling::Idle, PollEvent::Used { ok }) => if ok {
                Polling::Active
            } else {
                Polling::Stopped
            },
            (Polling::Active, PollEvent::Unused { ok }) => if ok {
                Polling::Idle
            } else {
                Polling::Stopped
            },
            (Polling::Active, PollEvent::Written { ok }) => if ok {
                Polling::Active
            } else {
                Polling::Stopped
            },
            _ => self,
        }
    }

    /// Takes a polled send rate while someone wants it, and writes it to the
    /// channel. What follows depends on whether the channel is still open.
    pub fn tick(self, producer: &BandwidthProducer, bitrate: Option<u64>) -> (r: Polling)
        requires
            self == Polling::Active,
        ensures
            ({
                ||| r == self.spec_next(PollEvent::Written { ok: true })
                    && producer.channel().bitrates.contains(bitrate)
                    && producer.channel().takes(bitrate)
                ||| r == self.spec_next(PollEvent::Written { ok: false })
                    && producer.channel().closes
            }),
    {
        let ok: bool = producer.set(bitrate).is_ok();
        self.next(PollEvent::Written { ok })
    }
}

/// What was read from the stream that set up the session.
#[derive(Debug)]
pub enum SetupRead {
    /// A message about the session, which needs no answer.
    Info,
    /// The end of the stream.
    End,
    /// An error.
    Failed(Failure),
}

/// Why the session ends after a read from its setup stream: the end of the stream
/// cancels it, an error is passed on. `None` if it goes on. A session without
/// such a stream is never ended by it.
pub fn after_setup_read(read: SetupRead, cancel_code: u32, cancel_message: String) -> (r: Option<
    Failure,
>)
    ensures
        match read {
            SetupRead::Info => r is None,
            SetupRead::End => r == Some(
                Failure { error: Error::Cancel, code: cancel_code, message: cancel_message },
            ),
            SetupRead::Failed(e) => r == Some(e),
        },
{
    match read {
        SetupRead::Info => None,
        SetupRead::End => Some(
            Failure { error: Error::Cancel, code: cancel_code, message: cancel_message },
        ),
        SetupRead::Failed(e) => Some(e),
    }
}

} // verus!
