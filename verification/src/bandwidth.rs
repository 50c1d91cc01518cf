//! Bandwidth estimation, split into a [`BandwidthProducer`] and a
//! [`BandwidthConsumer`] handle.
//!
//! A [`BandwidthProducer`] is used to set the current estimated bitrate,
//! notifying consumers. A [`BandwidthConsumer`] can read the current estimate
//! and look for changes.
//!
//! The two share their state through a channel of the `conducer` crate, which
//! other handles can change at any time. What can be said of a channel is
//! therefore what it holds at some time of its life: whatever is set is held, and
//! whatever is read was held.

use crate::error::Error;
use conducer::{Consumer, Mut, Producer, Ref, Waiter};
use std::task::Poll;
use vstd::prelude::*;

verus! {

/// What the handles of a channel share.
pub struct State {
    pub bitrate: Option<u64>,
}

impl Default for State {
    fn default() -> (r: Self)
        ensures
            r.bitrate is None,
    {
        State { bitrate: None }
    }
}

/// The producing side of a channel of the `conducer` crate.
#[verifier::external_type_specification]
#[verifier::external_body]
#[verifier::reject_recursive_types(T)]
pub struct ExProducer<T>(conducer::Producer<T>);

/// The consuming side of a channel of the `conducer` crate.
#[verifier::external_type_specification]
#[verifier::external_body]
#[verifier::reject_recursive_types(T)]
pub struct ExConsumer<T>(conducer::Consumer<T>);

/// The exclusive access of a producer to what its channel shares.
#[verifier::external_type_specification]
#[verifier::external_body]
#[verifier::reject_recursive_types(T)]
pub struct ExMut<'a, T>(conducer::Mut<'a, T>);

/// The shared access to what a channel shares.
#[verifier::external_type_specification]
#[verifier::external_body]
#[verifier::reject_recursive_types(T)]
pub struct ExRef<'a, T>(conducer::Ref<'a, T>);

/// A handle by which a task is woken.
#[verifier::external_type_specification]
#[verifier::external_body]
pub struct ExWaiter(conducer::Waiter);

/// The bitrate behind an exclusive access.
pub uninterp spec fn held(guard: Mut<'_, State>) -> Option<u64>;

/// Whether what is behind an exclusive access was reached for writing, so that
/// the consumers are woken when the access ends.
pub uninterp spec fn wakes(guard: Mut<'_, State>) -> bool;

/// A channel over all of its life.
pub struct Channel {
    /// What tells it from other channels.
    pub id: int,
    /// Every bitrate that it holds at some time.
    pub bitrates: Set<Option<u64>>,
    /// Every bitrate that an exclusive access to it left when it ended, with whether
    /// the consumers were woken then.
    pub left: Set<(Option<u64>, bool)>,
    /// Whether it is closed at some time.
    pub closes: bool,
}

impl Channel {
    /// Whether some access left a bitrate, and woke the consumers exactly if it
    /// found another one.
    pub open spec fn takes(self, bitrate: Option<u64>) -> bool {
        exists|before: Option<u64>| #[trigger]
            self.bitrates.contains(before) && self.left.contains((bitrate, before != bitrate))
    }
}

/// The channel that a producer writes to.
pub uninterp spec fn written(producer: Producer<State>) -> Channel;

/// The channel that a consumer reads.
pub uninterp spec fn observed(consumer: Consumer<State>) -> Channel;

/// The channel that an exclusive access is to.
pub uninterp spec fn behind(guard: Mut<'_, State>) -> Channel;

/// The channels that a waiter is registered with at some time, by what tells them
/// apart. A channel wakes the task of a registered waiter when it is next written
/// to or closed.
pub uninterp spec fn awaits(waiter: Waiter) -> Set<int>;

/// Calls `conducer::Producer::default`, which opens a channel that holds what
/// [`State::default`] gives: no bitrate.
#[verifier::external_body]
fn open_channel() -> (r: Producer<State>)
    ensures
        written(r).bitrates.contains(None),
{
    Producer::default()
}

/// Calls `conducer::Producer::consume`, which makes a consumer of the same channel.
#[verifier::external_body]
fn consumer_of(producer: &Producer<State>) -> (r: Consumer<State>)
    ensures
        observed(r) == written(*producer),
{
    producer.consume()
}

/// Calls `conducer::Producer::clone`, which makes another producer of the same channel.
#[verifier::external_body]
fn another_producer(producer: &Producer<State>) -> (r: Producer<State>)
    ensures
        written(r) == written(*producer),
{
    producer.clone()
}

/// Calls `conducer::Consumer::clone`, which makes another consumer of the same channel.
#[verifier::external_body]
fn another_consumer(consumer: &Consumer<State>) -> (r: Consumer<State>)
    ensures
        observed(r) == observed(*consumer),
{
    consumer.clone()
}

/// Calls `conducer::Producer::write`. It gives exclusive access to the channel
/// while that is open, and an access that was just given has not been used for
/// writing. Only once the channel is closed it gives shared access instead.
#[verifier::external_body]
fn write(producer: &Producer<State>) -> (r: Result<Mut<'_, State>, Ref<'_, State>>)
    ensures
        r matches Ok(guard) ==> !wakes(guard) && behind(guard) == written(*producer),
        r is Err ==> written(*producer).closes,
{
    producer.write()
}

/// Reads through `conducer::Mut`'s `Deref` what the channel holds now.
#[verifier::external_body]
fn peek(guard: &Mut<'_, State>) -> (r: Option<u64>)
    ensures
        r == held(*guard),
        behind(*guard).bitrates.contains(r),
{
    guard.bitrate
}

/// Writes through `conducer::Mut`'s `DerefMut`, which notes that the consumers
/// are to be woken. From then on the channel holds what was written.
#[verifier::external_body]
fn poke(guard: &mut Mut<'_, State>, bitrate: Option<u64>)
    ensures
        held(*final(guard)) == bitrate,
        wakes(*final(guard)),
        behind(*final(guard)) == behind(*old(guard)),
        behind(*final(guard)).bitrates.contains(bitrate),
{
    guard.bitrate = bitrate;
}

/// Ends an exclusive access by dropping the `conducer::Mut`, and tells what it
/// leaves behind. Its `Drop` wakes the consumers if they are to be woken.
#[verifier::external_body]
fn release(guard: Mut<'_, State>) -> (r: Option<u64>)
    ensures
        r == held(guard),
        behind(guard).left.contains((r, wakes(guard))),
{
    let bitrate: Option<u64> = guard.bitrate;
    drop(guard);
    bitrate
}

/// Calls `conducer::Consumer::read`, which shows what the channel holds now. Any
/// other handle may have written last, so it is not said which bitrate that is.
#[verifier::external_body]
fn read(consumer: &Consumer<State>) -> (r: Option<u64>)
    ensures
        observed(*consumer).bitrates.contains(r),
{
    consumer.read().bitrate
}

/// What a look at a channel found.
#[derive(Clone, Copy, Debug, PartialEq, Eq, Structural)]
pub enum Observation {
    /// A bitrate other than the last one that was seen.
    Changed(Option<u64>),
    /// No other bitrate, and there will be none.
    Closed,
    /// No other bitrate yet.
    Unchanged,
}

/// The bitrate of a channel, if it differs from the last one that was seen.
pub fn change(current: Option<u64>, last: Option<u64>) -> (r: Option<Option<u64>>)
    ensures
        r == (if current != last {
            Some(current)
        } else {
            None
        }),
{
    if current != last {
        Some(current)
    } else {
        None
    }
}

/// Calls `conducer::Consumer::poll`, which shows [`change`] what the channel holds
/// now. Whatever that finds is handed out, so a change is from the last bitrate
/// that was seen to one that the channel holds. Where it finds none, the channel
/// holds the last bitrate, and it is either closed, or the waiter is registered
/// with it. Which of these comes depends on the other handles.
#[verifier::external_body]
fn poll(consumer: &Consumer<State>, waiter: &Waiter, last: Option<u64>) -> (r: Observation)
    ensures
        match r {
            Observation::Changed(bitrate) => bitrate != last && observed(
                *consumer,
            ).bitrates.contains(bitrate),
            Observation::Closed => observed(*consumer).closes && observed(
                *consumer,
            ).bitrates.contains(last),
            Observation::Unchanged => observed(*consumer).bitrates.contains(last) && awaits(
                *waiter,
            ).contains(observed(*consumer).id),
        },
{
    match consumer.poll(
        waiter,
        |state| change(state.bitrate, last).map_or(Poll::Pending, Poll::Ready),
    ) {
        Poll::Ready(Ok(bitrate)) => Observation::Changed(bitrate),
        Poll::Ready(Err(_)) => Observation::Closed,
        Poll::Pending => Observation::Unchanged,
    }
}

/// Puts a bitrate behind an exclusive access. The consumers are woken only if
/// it differs from the one that was there.
pub fn assign(guard: &mut Mut<'_, State>, bitrate: Option<u64>)
    ensures
        behind(*final(guard)) == behind(*old(guard)),
        behind(*final(guard)).bitrates.contains(held(*old(guard))),
        behind(*final(guard)).bitrates.contains(bitrate),
        held(*final(guard)) == bitrate,
        wakes(*final(guard)) == (wakes(*old(guard)) || held(*old(guard)) != bitrate),
{
    if peek(guard) != bitrate {
        poke(guard, bitrate);
    }
}

/// Produces bandwidth estimates, notifying consumers when the value changes.
pub struct BandwidthProducer {
    state: Producer<State>,
}

impl BandwidthProducer {
    /// The channel that is written to.
    pub closed spec fn channel(self) -> Channel {
        written(self.state)
    }

    /// Opens a channel, which holds no bitrate at first.
    pub fn new() -> (r: Self)
        ensures
            r.channel().bitrates.contains(None),
    {
        BandwidthProducer { state: open_channel() }
    }

    /// The channel itself, for waiting until it is used or unused. While an access
    /// to it is held, `set` and `get` block.
    pub fn shared(&self) -> (r: &Producer<State>)
        ensures
            written(*r) == self.channel(),
    {
        &self.state
    }

    /// Sets the current bandwidth estimate in bits per second, so that the channel
    /// holds it. One access finds a bitrate and leaves the given one, and wakes the
    /// consumers exactly if the two differ. Fails only because the channel is closed.
    /// What the channel holds later is not stated: any other handle may write next.
    pub fn set(&self, bitrate: Option<u64>) -> (r: Result<(), Error>)
        ensures
            r is Ok ==> self.channel().bitrates.contains(bitrate) && self.channel().takes(bitrate),
            r matches Err(e) ==> e == Error::Dropped && self.channel().closes,
    {
        match self.modify() {
            Ok(mut state) => {
                let ghost before = held(state);
                assign(&mut state, bitrate);
                let _ = release(state);
                assert(self.channel().bitrates.contains(before));
                Ok(())
            },
            Err(e) => Err(e),
        }
    }

    /// Creates a new consumer for the bandwidth estimate, which has seen nothing yet.
    pub fn consume(&self) -> (r: BandwidthConsumer)
        ensures
            r.channel() == self.channel(),
            r.last() is None,
    {
        BandwidthConsumer { state: consumer_of(&self.state), last: None }
    }

    /// Exclusive access to what is shared, as long as the channel is open.
    fn modify(&self) -> (r: Result<Mut<'_, State>, Error>)
        ensures
            r matches Err(e) ==> e == Error::Dropped && self.channel().closes,
            r matches Ok(guard) ==> !wakes(guard) && behind(guard) == self.channel(),
    {
        match write(&self.state) {
            Ok(guard) => Ok(guard),
            Err(_) => Err(Error::Dropped),
        }
    }
}

impl Clone for BandwidthProducer {
    fn clone(&self) -> (r: Self)
        ensures
            r.channel() == self.channel(),
    {
        BandwidthProducer { state: another_producer(&self.state) }
    }
}

impl Default for BandwidthProducer {
    fn default() -> (r: Self)
        ensures
            r.channel().bitrates.contains(None),
    {
        BandwidthProducer::new()
    }
}

/// Consumes bandwidth estimates, allowing reads and looks for changes.
pub struct BandwidthConsumer {
    state: Consumer<State>,
    last: Option<u64>,
}

impl Clone for BandwidthConsumer {
    fn clone(&self) -> (r: Self)
        ensures
            r.channel() == self.channel(),
            r.last() == self.last(),
    {
        BandwidthConsumer { state: another_consumer(&self.state), last: self.last }
    }
}

/// Whether there is something new.
#[derive(Clone, Copy, Debug, PartialEq, Eq, Structural)]
pub enum Change {
    Ready(Option<u64>),
    Pending,
}

impl BandwidthConsumer {
    /// The channel that is read.
    pub closed spec fn channel(self) -> Channel {
        observed(self.state)
    }

    /// The bitrate that was seen last.
    pub closed spec fn last(self) -> Option<u64> {
        self.last
    }

    /// Gets the current bandwidth estimate, a bitrate that the channel holds. That
    /// is whatever was written to it last, through any handle.
    pub fn get(&self) -> (r: Option<u64>)
        ensures
            self.channel().bitrates.contains(r),
    {
        read(&self.state)
    }

    /// What a look at the channel means to this consumer: a change is reported
    /// and remembered, and a closed channel has no bitrate.
    pub fn settle(&mut self, seen: Observation) -> (r: Change)
        ensures
            final(self).channel() == old(self).channel(),
            match seen {
                Observation::Changed(bitrate) => r == Change::Ready(bitrate) && final(self).last()
                    == bitrate,
                Observation::Closed => r == Change::Ready(None) && final(self).last() == old(
                    self,
                ).last(),
                Observation::Unchanged => r == Change::Pending && final(self).last() == old(
                    self,
                ).last(),
            },
    {
        match seen {
            Observation::Changed(bitrate) => {
                self.last = bitrate;
                Change::Ready(bitrate)
            },
            Observation::Closed => Change::Ready(None),
            Observation::Unchanged => Change::Pending,
        }
    }

    /// Looks for a bandwidth change without blocking. A change is to a bitrate that
    /// the channel holds. `Ready(None)` if the estimate became unavailable or the
    /// channel is closed; otherwise, without a change, the channel holds what was
    /// seen last, and the waiter is registered with it.
    pub fn poll_changed(&mut self, waiter: &Waiter) -> (r: Change)
        ensures
            final(self).channel() == old(self).channel(),
            match r {
                Change::Ready(Some(bitrate)) => {
                    &&& old(self).last() != Some(bitrate)
                    &&& final(self).last() == Some(bitrate)
                    &&& old(self).channel().bitrates.contains(Some(bitrate))
                },
                Change::Ready(None) => {
                    ||| old(self).last() is Some && final(self).last() is None && old(
                        self,
                    ).channel().bitrates.contains(None)
                    ||| final(self).last() == old(self).last() && old(self).channel().closes
                        && old(self).channel().bitrates.contains(old(self).last())
                },
                Change::Pending => {
                    &&& final(self).last() == old(self).last()
                    &&& old(self).channel().bitrates.contains(old(self).last())
                    &&& awaits(*waiter).contains(old(self).channel().id)
                },
            },
    {
        let last = self.last;
        let seen = poll(&self.state, waiter, last);
        self.settle(seen)
    }
}

} // verus!
