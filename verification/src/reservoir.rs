//! The byte reservoir: a bounded buffer of bytes not yet decoded.
//!
//! The reservoir is a fixed-capacity circular buffer of the `circular_buffer`
//! crate, holding at most [`RESERVOIR_CAPACITY`] bytes. The driver appends
//! newly received bytes at the back; the decoder consumes from the front and
//! can push provisionally read bytes back onto the front. On overflow the
//! oldest bytes are evicted in favour of the new ones, as the crate's
//! `extend_from_slice` does: that can drop an already-seen marker, which the
//! decoder recovers from by rescanning, so overflow is lossy but never fatal.
//!
//! Everything the decoder knows about the buffer is stated here, over
//! [`rb_bytes`], the sequence of bytes it holds from front to back.

use vstd::prelude::*;

use circular_buffer::FixedCircularBuffer;

verus! {

#[verifier::external_type_specification]
#[verifier::external_body]
#[verifier::reject_recursive_types(T)]
pub struct ExFixedCircularBuffer<T, const N: usize>(FixedCircularBuffer<T, N>);

/// How many bytes the reservoir can hold at most.
pub const RESERVOIR_CAPACITY: usize = 512;

/// The bytes a reservoir holds, from front (oldest) to back (newest).
pub uninterp spec fn rb_bytes(b: FixedCircularBuffer<u8, 512>) -> Seq<u8>;

/// What a sequence of buffered bytes becomes once the reservoir's overflow
/// policy is applied: everything but the newest `RESERVOIR_CAPACITY` bytes
/// is evicted.
pub open spec fn evict_to_capacity(s: Seq<u8>) -> Seq<u8> {
    if s.len() <= RESERVOIR_CAPACITY {
        s
    } else {
        s.skip(s.len() - RESERVOIR_CAPACITY)
    }
}

/// Relies on FixedCircularBuffer::new: returns an empty buffer.
#[verifier::external_body]
pub(crate) fn rb_new() -> (r: FixedCircularBuffer<u8, 512>)
    ensures
        rb_bytes(r) == Seq::<u8>::empty(),
{
    FixedCircularBuffer::new()
}

/// Relies on CircularBuffer::len: the number of elements held.
#[verifier::external_body]
pub(crate) fn rb_len(b: &FixedCircularBuffer<u8, 512>) -> (r: usize)
    ensures
        r == rb_bytes(*b).len(),
{
    b.len()
}

/// Relies on CircularBuffer::get: the element at index `i`, the front
/// being index 0; `Some` whenever `i` is within the length.
#[verifier::external_body]
pub(crate) fn rb_get(b: &FixedCircularBuffer<u8, 512>, i: usize) -> (r: u8)
    requires
        i < rb_bytes(*b).len(),
    ensures
        r == rb_bytes(*b)[i as int],
{
    *b.get(i).unwrap()
}

/// Relies on CircularBuffer::pop_front: removes and returns the front
/// element, or returns `None` and changes nothing when the buffer is empty.
#[verifier::external_body]
pub(crate) fn rb_pop_front(b: &mut FixedCircularBuffer<u8, 512>) -> (r: Option<u8>)
    ensures
        rb_bytes(*old(b)).len() == 0 ==> r is None && rb_bytes(*final(b)) == rb_bytes(*old(b)),
        rb_bytes(*old(b)).len() > 0 ==> r == Some(rb_bytes(*old(b))[0]) && rb_bytes(*final(b))
            == rb_bytes(*old(b)).skip(1),
{
    b.pop_front()
}

/// Relies on CircularBuffer::push_front: inserts an element at the front;
/// while the buffer is not full, nothing is overwritten.
#[verifier::external_body]
pub(crate) fn rb_push_front(b: &mut FixedCircularBuffer<u8, 512>, x: u8)
    requires
        rb_bytes(*old(b)).len() < 512,
    ensures
        rb_bytes(*final(b)) == seq![x] + rb_bytes(*old(b)),
{
    let _ = b.push_front(x);
}

/// Relies on CircularBuffer::extend_from_slice: appends the slice at the
/// back; when the result would exceed the capacity, the oldest elements
/// are dropped first, so the newest 512 bytes remain.
#[verifier::external_body]
pub(crate) fn rb_extend(b: &mut FixedCircularBuffer<u8, 512>, bytes: &[u8])
    ensures
        rb_bytes(*final(b)) == evict_to_capacity(rb_bytes(*old(b)) + bytes@),
{
    b.extend_from_slice(bytes)
}

} // verus!
