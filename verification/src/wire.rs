//! Byte-level model of the wire format.
//!
//! These specification functions say what the bytes of the stream mean: where
//! the frame marker stands, how little-endian fields are read, what the
//! checksum of a frame is, and how the per-frame time-low byte is reconciled
//! with the absolute clock. The decoder's contracts are stated over them.

use vstd::prelude::*;

verus! {

/// First byte of the frame marker, the ASCII character `A`.
pub const MARKER0: u8 = 0x41;

/// Second byte of the frame marker, the ASCII character `4`.
pub const MARKER1: u8 = 0x34;

/// Whether the two-byte frame marker stands at position `i` of `s`.
pub open spec fn marker_at(s: Seq<u8>, i: int) -> bool {
    &&& 0 <= i
    &&& i + 1 < s.len()
    &&& s[i] == MARKER0
    &&& s[i + 1] == MARKER1
}

/// The position of the first frame marker at or after `i`, if any.
pub open spec fn first_marker_from(s: Seq<u8>, i: int) -> Option<int>
    decreases s.len() - i,
{
    if i + 1 >= s.len() {
        None
    } else if marker_at(s, i) {
        Some(i)
    } else {
        first_marker_from(s, i + 1)
    }
}

/// The position of the first frame marker of `s`, if any.
pub open spec fn first_marker(s: Seq<u8>) -> Option<int> {
    first_marker_from(s, 0)
}

/// What `first_marker_from` returns: the first marker position at or after
/// `i`, or `None` when no marker stands anywhere at or after `i`.
pub proof fn lemma_first_marker_from_char(s: Seq<u8>, i: int)
    requires
        0 <= i,
    ensures
        match first_marker_from(s, i) {
            Some(j) => i <= j && marker_at(s, j) && (forall|k: int|
                i <= k < j ==> !marker_at(s, k)),
            None => forall|k: int| i <= k ==> !marker_at(s, k),
        },
    decreases s.len() - i,
{
    if i + 1 >= s.len() {
        assert(forall|k: int| i <= k ==> !marker_at(s, k));
    } else if marker_at(s, i) {
    } else {
        lemma_first_marker_from_char(s, i + 1);
    }
}

/// A marker at `j` with none before it pins `first_marker_from` down.
pub proof fn lemma_first_marker_from_found(s: Seq<u8>, i: int, j: int)
    requires
        0 <= i <= j,
        marker_at(s, j),
        forall|k: int| i <= k < j ==> !marker_at(s, k),
    ensures
        first_marker_from(s, i) == Some(j),
    decreases j - i,
{
    if i < j {
        lemma_first_marker_from_found(s, i + 1, j);
    }
}

/// No marker anywhere at or after `i` means `first_marker_from` finds none.
pub proof fn lemma_first_marker_from_none(s: Seq<u8>, i: int)
    requires
        0 <= i,
        forall|k: int| i <= k ==> !marker_at(s, k),
    ensures
        first_marker_from(s, i) is None,
    decreases s.len() - i,
{
    if i + 1 < s.len() {
        lemma_first_marker_from_none(s, i + 1);
    }
}

/// The 16-bit value sent as `lo` then `hi`, least significant byte first.
pub open spec fn le16(lo: u8, hi: u8) -> u16 {
    (lo + hi * 256) as u16
}

/// The bitwise complement of a 16-bit value.
pub open spec fn complement16(x: u16) -> u16 {
    (65535 - x) as u16
}

/// The 32-bit value read little-endian from the first four bytes of `s`,
/// with missing trailing bytes defaulted to zero.
pub open spec fn le32_padded(s: Seq<u8>) -> u32 {
    (byte_or_zero(s, 0) + byte_or_zero(s, 1) * 0x100 + byte_or_zero(s, 2) * 0x10000 + byte_or_zero(
        s,
        3,
    ) * 0x1000000) as u32
}

/// The byte at position `i` of `s`, or zero past the end.
pub open spec fn byte_or_zero(s: Seq<u8>, i: int) -> u8 {
    if 0 <= i < s.len() {
        s[i]
    } else {
        0
    }
}

/// The plain sum of a sequence of bytes.
pub open spec fn byte_sum(s: Seq<u8>) -> int
    decreases s.len(),
{
    if s.len() == 0 {
        0
    } else {
        byte_sum(s.drop_last()) + s.last()
    }
}

/// The checksum of a frame: identifier byte plus all payload bytes, mod 256.
pub open spec fn frame_checksum(id: u8, payload: Seq<u8>) -> u8 {
    ((id + byte_sum(payload)) % 256) as u8
}

/// A byte sum is bounded by 255 per byte.
pub proof fn lemma_byte_sum_bound(s: Seq<u8>)
    ensures
        0 <= byte_sum(s) <= 255 * s.len(),
    decreases s.len(),
{
    if s.len() > 0 {
        lemma_byte_sum_bound(s.drop_last());
    }
}

/// One second below `a`, floored at zero.
pub open spec fn sat_dec(a: u32) -> u32 {
    if a == 0 {
        0u32
    } else {
        (a - 1) as u32
    }
}

/// One second above `a`, capped at the largest 32-bit value.
pub open spec fn sat_inc(a: u32) -> u32 {
    if a == 0xFFFF_FFFF {
        a
    } else {
        (a + 1) as u32
    }
}

/// Reconciliation of the absolute clock `a` with a frame's time-low byte
/// `t`: the value among `a`, `a - 1` and `a + 1` whose low 8 bits equal
/// `t`, tried in that order; when none matches, the raw absolute value is
/// taken as authoritative.
pub open spec fn spec_reconcile(a: u32, t: u8) -> u32 {
    if a % 256 == t {
        a
    } else if sat_dec(a) % 256 == t {
        sat_dec(a)
    } else if sat_inc(a) % 256 == t {
        sat_inc(a)
    } else {
        a
    }
}

/// The full timestamp of a frame: the last known absolute clock reconciled
/// with the frame's time-low byte, or zero while no clock is known yet.
pub open spec fn spec_time_of(clock: Option<u32>, t: u8) -> u32 {
    match clock {
        Option::Some(a) => spec_reconcile(a, t),
        Option::None => 0u32,
    }
}

/// The bytes of one whole frame on the wire: marker, checksum byte, length
/// and redundancy fields little-endian, time-low byte, sub-second counter
/// little-endian, sequence number, identifier, payload.
pub open spec fn frame_bytes(
    cksum: u8,
    dl: u16,
    inv: u16,
    tlow: u8,
    subsec: u16,
    seq: u8,
    id: u8,
    payload: Seq<u8>,
) -> Seq<u8> {
    seq![
        MARKER0,
        MARKER1,
        cksum,
        (dl % 256) as u8,
        (dl / 256) as u8,
        (inv % 256) as u8,
        (inv / 256) as u8,
        tlow,
        (subsec % 256) as u8,
        (subsec / 256) as u8,
        seq,
        id,
    ] + payload
}

/// Splitting a 16-bit value into its little-endian bytes and reading them
/// back yields the value.
pub proof fn lemma_le16_split(x: u16)
    ensures
        le16((x % 256) as u8, (x / 256) as u8) == x,
{
}

/// How many frames were lost before a frame with sequence number `seq`:
/// the distance mod 256 from the expected successor of `prev` to `seq`,
/// or zero when no frame has been seen yet.
pub open spec fn spec_gap(prev: Option<u8>, seq: u8) -> u8 {
    match prev {
        Option::Some(p) => ((seq - (p + 1)) % 256) as u8,
        Option::None => 0u8,
    }
}

} // verus!
