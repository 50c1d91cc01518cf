//! The datagrams that a relay exchanges with its clients.
//!
//! Transport stats (relay to client):
//!   `[0x03][recv_bytes:u64 BE][recv_packets:u64 BE][lost_packets:u64 BE]`
//!   `[rtt_us:u64 BE][cwnd:u64 BE][timestamp_us:u64 BE]`  (49 bytes)
//!
//! Relay clock heartbeat (relay to client):
//!   `[0x0A][relay_time_us:u64 BE]`  (9 bytes)
//!
//! Bitrate ceiling (relay to publisher):
//!   `[0x07][ceiling_kbps:u32 BE][state:u8]`  (6 bytes)
//!
//! Keyframe request (relay to publisher):
//!   `[0x04]`
//!
//! Clock sync request and response:
//!   `[0x01][t1:u64 BE]`, `[0x02][t1:u64 BE][t2:u64 BE][t3:u64 BE]`  (9 and 25 bytes)
//!
//! Video (client to relay to all others):
//!   `[0x05]...`

use crate::allocator::AllocatorState;
use bytes::{Bytes, BytesMut};
use vstd::prelude::*;

verus! {

/// An immutable buffer of the `bytes` crate.
#[verifier::external_type_specification]
#[verifier::external_body]
pub struct ExBytes(bytes::Bytes);

/// A growing buffer of the `bytes` crate.
#[verifier::external_type_specification]
#[verifier::external_body]
pub struct ExBytesMut(bytes::BytesMut);

/// What an immutable buffer holds.
pub uninterp spec fn contents(b: Bytes) -> Seq<u8>;

/// What a growing buffer holds.
pub uninterp spec fn gathered(b: BytesMut) -> Seq<u8>;

/// Whether a growing buffer was only ever appended to, so that it shares its
/// memory with no other buffer and begins where its memory begins.
pub uninterp spec fn unshared(b: BytesMut) -> bool;

/// Calls `bytes::BytesMut::with_capacity`, which makes an empty buffer.
#[verifier::external_body]
fn with_capacity(capacity: usize) -> (r: BytesMut)
    requires
        capacity <= isize::MAX,
    ensures
        gathered(r) == Seq::<u8>::empty(),
        unshared(r),
{
    BytesMut::with_capacity(capacity)
}

/// Calls `bytes::BytesMut::extend_from_slice`, which appends the bytes. It may
/// double the memory of the buffer, for which there must be room.
#[verifier::external_body]
fn append(buf: &mut BytesMut, data: &[u8])
    requires
        unshared(*old(buf)),
        2 * (gathered(*old(buf)).len() + data@.len()) <= isize::MAX,
    ensures
        gathered(*final(buf)) == gathered(*old(buf)) + data@,
        unshared(*final(buf)),
{
    buf.extend_from_slice(data);
}

/// Calls `bytes::BytesMut::freeze`, which keeps what the buffer holds.
#[verifier::external_body]
fn freeze(buf: BytesMut) -> (r: Bytes)
    ensures
        contents(r) == gathered(buf),
{
    buf.freeze()
}

/// Calls `bytes::Bytes::from_static`, which makes a buffer of the given bytes.
#[verifier::external_body]
fn from_static(data: &'static [u8]) -> (r: Bytes)
    ensures
        contents(r) == data@,
{
    Bytes::from_static(data)
}

/// Calls `bytes::Bytes::as_ref`, which shows what the buffer holds.
#[verifier::external_body]
fn as_slice(data: &Bytes) -> (r: &[u8])
    ensures
        r@ == contents(*data),
{
    data.as_ref()
}

/// A number in `width` bytes, the highest first; what does not fit is cut off.
pub open spec fn big_endian(n: nat, width: nat) -> Seq<u8>
    decreases width,
{
    if width == 0 {
        Seq::empty()
    } else {
        big_endian(n / 256, (width - 1) as nat).push((n % 256) as u8)
    }
}

fn be_u32(n: u32) -> (r: [u8; 4])
    ensures
        r@ == big_endian(n as nat, 4),
{
    let n1: u32 = n / 256;
    let n2: u32 = n1 / 256;
    let n3: u32 = n2 / 256;
    let r: [u8; 4] = [(n3 % 256) as u8, (n2 % 256) as u8, (n1 % 256) as u8, (n % 256) as u8];
    proof {
        assert(big_endian((n3 / 256) as nat, 0) == Seq::<u8>::empty());
        assert(big_endian(n3 as nat, 1) == r@.take(1));
        assert(big_endian(n2 as nat, 2) == r@.take(2));
        assert(big_endian(n1 as nat, 3) == r@.take(3));
        assert(big_endian(n as nat, 4) == r@);
    }
    r
}

fn be_u64(n: u64) -> (r: [u8; 8])
    ensures
        r@ == big_endian(n as nat, 8),
{
    let n1: u64 = n / 256;
    let n2: u64 = n1 / 256;
    let n3: u64 = n2 / 256;
    let n4: u64 = n3 / 256;
    let n5: u64 = n4 / 256;
    let n6: u64 = n5 / 256;
    let n7: u64 = n6 / 256;
    let r: [u8; 8] = [
        (n7 % 256) as u8,
        (n6 % 256) as u8,
        (n5 % 256) as u8,
        (n4 % 256) as u8,
        (n3 % 256) as u8,
        (n2 % 256) as u8,
        (n1 % 256) as u8,
        (n % 256) as u8,
    ];
    proof {
        assert(big_endian((n7 / 256) as nat, 0) == Seq::<u8>::empty());
        assert(big_endian(n7 as nat, 1) == r@.take(1));
        assert(big_endian(n6 as nat, 2) == r@.take(2));
        assert(big_endian(n5 as nat, 3) == r@.take(3));
        assert(big_endian(n4 as nat, 4) == r@.take(4));
        assert(big_endian(n3 as nat, 5) == r@.take(5));
        assert(big_endian(n2 as nat, 6) == r@.take(6));
        assert(big_endian(n1 as nat, 7) == r@.take(7));
        assert(big_endian(n as nat, 8) == r@);
    }
    r
}

/// The number that bytes stand for, the highest first.
pub open spec fn big_endian_value(s: Seq<u8>) -> nat
    decreases s.len(),
{
    if s.len() == 0 {
        0
    } else {
        big_endian_value(s.drop_last()) * 256 + s.last() as nat
    }
}

/// A number takes as many bytes as it is given.
pub proof fn lemma_big_endian_len(n: nat, width: nat)
    ensures
        big_endian(n, width).len() == width,
    decreases width,
{
    if width > 0 {
        lemma_big_endian_len(n / 256, (width - 1) as nat);
    }
}

/// What a connection measured of itself.
#[derive(Clone, Copy, Debug, PartialEq, Eq, Structural)]
pub struct LinkReport {
    pub bytes_received: u64,
    pub packets_received: u64,
    pub packets_lost: u64,
    pub rtt_us: u64,
    /// Bytes that may be in flight at once.
    pub congestion_window: u64,
    /// Bits per second, as the peer delivers them.
    pub inbound_bps: u64,
}

/// The transport stats.
pub open spec fn stats_message(report: LinkReport, now_us: u64) -> Seq<u8> {
    seq![0x03u8] + big_endian(report.bytes_received as nat, 8) + big_endian(
        report.packets_received as nat,
        8,
    ) + big_endian(report.packets_lost as nat, 8) + big_endian(report.rtt_us as nat, 8)
        + big_endian(report.congestion_window as nat, 8) + big_endian(now_us as nat, 8)
}

/// The clock heartbeat.
pub open spec fn heartbeat_message(now_us: u64) -> Seq<u8> {
    seq![0x0au8] + big_endian(now_us as nat, 8)
}

/// The ceiling in kilobits per second, as far as 32 bits hold them. A publisher
/// that is not limited is told zero.
pub open spec fn ceiling_kbps(state: AllocatorState, ceiling_bps: u64) -> u32 {
    if state == AllocatorState::Stable {
        0
    } else {
        ((ceiling_bps as nat / 1_000) % 0x1_0000_0000) as u32
    }
}

/// The bitrate ceiling.
pub open spec fn ceiling_message(state: AllocatorState, ceiling_bps: u64) -> Seq<u8> {
    seq![0x07u8] + big_endian(ceiling_kbps(state, ceiling_bps) as nat, 4) + seq![state.code()]
}

/// The keyframe request.
pub open spec fn keyframe_message() -> Seq<u8> {
    seq![0x04u8]
}

/// Whether a datagram asks for the time.
pub open spec fn is_sync_request(data: Seq<u8>) -> bool {
    data.len() == 9 && data[0] == 0x01
}

/// Whether a datagram is video.
pub open spec fn is_video(data: Seq<u8>) -> bool {
    data.len() > 0 && data[0] == 0x05
}

/// The answer to a request for the time: the time of the client, as it was sent,
/// then the times at which the request came and the answer left.
pub open spec fn sync_message(request: Seq<u8>, received_us: u64, sent_us: u64) -> Seq<u8> {
    seq![0x02u8] + request.subrange(1, 9) + big_endian(received_us as nat, 8) + big_endian(
        sent_us as nat,
        8,
    )
}

/// Encodes transport stats.
pub fn encode_stats(report: &LinkReport, now_us: u64) -> (r: Bytes)
    ensures
        contents(r) == stats_message(*report, now_us),
{
    proof {
        lemma_big_endian_len(report.bytes_received as nat, 8);
        lemma_big_endian_len(report.packets_received as nat, 8);
        lemma_big_endian_len(report.packets_lost as nat, 8);
        lemma_big_endian_len(report.rtt_us as nat, 8);
        lemma_big_endian_len(report.congestion_window as nat, 8);
        lemma_big_endian_len(now_us as nat, 8);
    }
    let mut buf = with_capacity(49);
    append(&mut buf, &[0x03]);
    append(&mut buf, &be_u64(report.bytes_received));
    append(&mut buf, &be_u64(report.packets_received));
    append(&mut buf, &be_u64(report.packets_lost));
    append(&mut buf, &be_u64(report.rtt_us));
    append(&mut buf, &be_u64(report.congestion_window));
    append(&mut buf, &be_u64(now_us));
    freeze(buf)
}

/// Encodes a clock heartbeat.
pub fn encode_heartbeat(now_us: u64) -> (r: Bytes)
    ensures
        contents(r) == heartbeat_message(now_us),
{
    proof {
        lemma_big_endian_len(now_us as nat, 8);
    }
    let mut buf = with_capacity(9);
    append(&mut buf, &[0x0a]);
    append(&mut buf, &be_u64(now_us));
    freeze(buf)
}

/// Encodes a bitrate ceiling.
pub fn encode_ceiling(state: AllocatorState, ceiling_bps: u64) -> (r: Bytes)
    ensures
        contents(r) == ceiling_message(state, ceiling_bps),
{
    // In Stable state, send zero to mean "no limit, use your configured max".
    let kbps: u32 = if state == AllocatorState::Stable {
        0
    } else {
        ((ceiling_bps / 1_000) % 0x1_0000_0000) as u32
    };
    proof {
        lemma_big_endian_len(kbps as nat, 4);
    }
    let mut buf = with_capacity(6);
    append(&mut buf, &[0x07]);
    append(&mut buf, &be_u32(kbps));
    append(&mut buf, &[state.as_u8()]);
    freeze(buf)
}

/// Encodes a keyframe request.
pub fn encode_keyframe_request() -> (r: Bytes)
    ensures
        contents(r) == keyframe_message(),
{
    from_static(&[0x04])
}

/// What a relay does with a datagram from a client.
#[derive(Clone, Copy, Debug, PartialEq, Eq, Structural)]
pub enum Incoming {
    /// Answers it with its time.
    SyncRequest,
    /// Passes it on to all other connections.
    Video,
    /// Ignores it.
    Unknown,
}

/// What a relay does with a datagram from a client.
pub fn classify(data: &Bytes) -> (r: Incoming)
    ensures
        r == Incoming::SyncRequest <==> is_sync_request(contents(*data)),
        r == Incoming::Video <==> is_video(contents(*data)),
{
    let data = as_slice(data);
    if data.len() == 9 && data[0] == 0x01 {
        Incoming::SyncRequest
    } else if data.len() > 0 && data[0] == 0x05 {
        Incoming::Video
    } else {
        Incoming::Unknown
    }
}

/// Encodes the answer to a request for the time.
pub fn encode_sync_response(request: &Bytes, received_us: u64, sent_us: u64) -> (r: Bytes)
    requires
        is_sync_request(contents(*request)),
    ensures
        contents(r) == sync_message(contents(*request), received_us, sent_us),
{
    proof {
        lemma_big_endian_len(received_us as nat, 8);
        lemma_big_endian_len(sent_us as nat, 8);
    }
    let mut buf = with_capacity(25);
    append(&mut buf, &[0x02]);
    append(&mut buf, vstd::slice::slice_subrange(as_slice(request), 1, 9));
    append(&mut buf, &be_u64(received_us));
    append(&mut buf, &be_u64(sent_us));
    freeze(buf)
}

} // verus!
