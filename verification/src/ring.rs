//! The byte ring of the `bytes` crate, as far as a connection uses it.
//!
//! Nothing in this file is proved: each contract restates what the source of
//! `bytes::RingBuf` does, over three names for the state of a ring.

use vstd::prelude::*;
use vstd::arithmetic::power2::pow2;
use bytes::RingBuf;

verus! {

/// The largest capacity a ring is asked for. Rounded up to a power of two and
/// extended by the allocator's header it still fits the address space of a
/// 32-bit target.
pub const MAX_BUFFER_CAPACITY: usize = 0x4000_0000;

#[verifier::external_type_specification]
#[verifier::external_body]
pub struct ExRingBuf(RingBuf);

/// The bytes a ring holds, oldest first.
pub uninterp spec fn ring_contents(ring: RingBuf) -> Seq<u8>;

/// The number of bytes a ring can hold.
pub uninterp spec fn ring_capacity(ring: RingBuf) -> nat;

/// The offset of a ring's read cursor in its storage.
pub uninterp spec fn ring_head(ring: RingBuf) -> nat;

/// `n` is a power of two.
pub open spec fn is_power_of_two(n: nat) -> bool {
    exists|k: nat| n == pow2(k)
}

/// The length of the stretch of stored bytes that lies in one piece: from
/// the read cursor to the end of the stored bytes, or to the end of the
/// storage where they wrap around.
pub open spec fn contiguous_len(len: nat, capacity: nat, head: nat) -> nat {
    if head + len <= capacity {
        len
    } else {
        (capacity - head) as nat
    }
}

/// The smaller of two counts.
pub open spec fn at_most(n: nat, limit: nat) -> nat {
    if n <= limit {
        n
    } else {
        limit
    }
}

/// Where the read cursor stands after it has moved `cnt` bytes forward in a
/// storage of `capacity` bytes.
pub open spec fn cursor_after(head: nat, cnt: nat, capacity: nat) -> nat {
    (head + cnt) % capacity
}

/// Calls `RingBuf::new`: an empty ring with its read cursor at the start,
/// whose capacity is the requested one rounded up to the next power of two.
#[verifier::external_body]
pub(crate) fn ring_new(capacity: usize) -> (ring: RingBuf)
    requires
        0 < capacity <= MAX_BUFFER_CAPACITY,
    ensures
        ring_contents(ring) == Seq::<u8>::empty(),
        ring_head(ring) == 0,
        is_power_of_two(ring_capacity(ring)),
        capacity <= ring_capacity(ring) < 2 * capacity,
{
    RingBuf::new(capacity)
}

/// Calls `Buf::remaining` of the ring: the number of stored bytes.
#[verifier::external_body]
pub(crate) fn ring_readable(ring: &RingBuf) -> (n: usize)
    ensures
        n == ring_contents(*ring).len(),
{
    bytes::Buf::remaining(ring)
}

/// Calls `MutBuf::remaining` of the ring: the number of bytes that still fit.
#[verifier::external_body]
pub(crate) fn ring_writable(ring: &RingBuf) -> (n: usize)
    ensures
        n == ring_capacity(*ring) - ring_contents(*ring).len(),
{
    bytes::MutBuf::remaining(ring)
}

/// Calls `Buf::bytes` of the ring: the stored bytes from the read cursor up
/// to the end of the storage, the oldest first.
#[verifier::external_body]
pub(crate) fn ring_bytes(ring: &RingBuf) -> (span: &[u8])
    requires
        ring_capacity(*ring) > 0,
    ensures
        span@ == ring_contents(*ring).take(
            contiguous_len(ring_contents(*ring).len(), ring_capacity(*ring), ring_head(*ring)) as int,
        ),
{
    bytes::Buf::bytes(ring)
}

/// Calls `Buf::advance` of the ring: drops the `cnt` oldest bytes, or all of
/// them where fewer are stored, and moves the read cursor past them.
#[verifier::external_body]
pub(crate) fn ring_advance(ring: &mut RingBuf, cnt: usize)
    requires
        ring_capacity(*old(ring)) > 0,
    ensures
        ring_capacity(*final(ring)) == ring_capacity(*old(ring)),
        ring_contents(*final(ring)) == ring_contents(*old(ring)).skip(
            at_most(cnt as nat, ring_contents(*old(ring)).len()) as int,
        ),
        ring_head(*final(ring)) == cursor_after(
            ring_head(*old(ring)),
            at_most(cnt as nat, ring_contents(*old(ring)).len()),
            ring_capacity(*old(ring)),
        ),
{
    bytes::Buf::advance(ring, cnt)
}

/// Calls `MutBuf::write_slice` of the ring: appends the bytes of `src` that
/// still fit, in order, and returns how many it took. The read cursor stays.
#[verifier::external_body]
pub(crate) fn ring_write_slice(ring: &mut RingBuf, src: &[u8]) -> (n: usize)
    ensures
        ring_capacity(*final(ring)) == ring_capacity(*old(ring)),
        ring_head(*final(ring)) == ring_head(*old(ring)),
        n == at_most(
            src@.len(),
            (ring_capacity(*old(ring)) - ring_contents(*old(ring)).len()) as nat,
        ),
        ring_contents(*final(ring)) == ring_contents(*old(ring)) + src@.take(n as int),
{
    bytes::MutBuf::write_slice(ring, src)
}

} // verus!
