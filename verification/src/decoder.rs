//! The streaming frame decoder.
//!
//! A [`Decoder`] owns one decoding session: the byte reservoir, the last
//! observed sequence number, and the clock state (the absolute seconds of the
//! most recent time-sync frame, and the protocol version). The driver feeds
//! bytes in with [`Decoder::append`] and then calls [`Decoder::decode_next`]
//! in a loop until it reports [`FrameOutcome::AwaitingMoreData`].
//!
//! Every call of `decode_next` performs exactly one step of the abstract
//! transition function [`spec_step`]: it resynchronizes on the frame marker,
//! then either decodes one frame, rejects one corrupt frame, or reports that
//! more bytes are needed. A failure never ends the session; decoding resumes
//! on the next call.

use vstd::prelude::*;

use circular_buffer::FixedCircularBuffer;

use crate::reservoir::RESERVOIR_CAPACITY;
use crate::reservoir::rb_bytes;
use crate::reservoir::rb_extend;
use crate::reservoir::rb_get;
use crate::reservoir::rb_len;
use crate::reservoir::rb_new;
use crate::reservoir::rb_pop_front;
use crate::reservoir::rb_push_front;
use crate::reservoir::evict_to_capacity;
use crate::types::DataType;
use crate::types::spec_data_type;
use crate::wire::MARKER0;
use crate::wire::MARKER1;
use crate::wire::byte_sum;
use crate::wire::complement16;
use crate::wire::first_marker;
use crate::wire::frame_checksum;
use crate::wire::le16;
use crate::wire::le32_padded;
use crate::wire::lemma_byte_sum_bound;
use crate::wire::lemma_first_marker_from_char;
use crate::wire::lemma_first_marker_from_found;
use crate::wire::lemma_first_marker_from_none;
use crate::wire::marker_at;
use crate::wire::spec_gap;
use crate::wire::spec_reconcile;
use crate::wire::spec_time_of;

verus! {

/// Why a frame attempt was not a success.
///
/// `LengthMismatch`, `ChecksumMismatch` and `UnknownDataType` come back from
/// [`Decoder::decode_next`] inside [`FrameOutcome::Rejected`]. A truncated
/// payload is recovered locally — the reservoir is restored and the outcome
/// is [`FrameOutcome::AwaitingMoreData`] — and a sequence gap never blocks a
/// frame — it is reported through [`Packet::gap`] — so `TruncatedPayload`
/// and `SequenceGap` classify those conditions for callers that log them.
#[derive(Clone, Debug, PartialEq, Eq)]
pub enum FailureKind {
    /// The declared length and its bitwise-complement redundancy disagree.
    LengthMismatch,
    /// The checksum byte disagrees with the sum of identifier and payload.
    ChecksumMismatch,
    /// Fewer bytes than the declared payload length are available so far.
    TruncatedPayload,
    /// The data-type identifier byte is unknown to this decoder. Carries
    /// the raw identifier byte and the frame's payload bytes, surfaced for
    /// forward-compatibility logging rather than silently dropped.
    UnknownDataType(u8, Vec<u8>),
    /// This many frames were lost before the current one.
    SequenceGap(u8),
}

/// The mathematical value of a [`FailureKind`].
#[verifier::ext_equal]
pub enum FailureModel {
    LengthMismatch,
    ChecksumMismatch,
    TruncatedPayload,
    UnknownDataType(u8, Seq<u8>),
    SequenceGap(u8),
}

impl View for FailureKind {
    type V = FailureModel;

    open spec fn view(&self) -> FailureModel {
        match self {
            FailureKind::LengthMismatch => FailureModel::LengthMismatch,
            FailureKind::ChecksumMismatch => FailureModel::ChecksumMismatch,
            FailureKind::TruncatedPayload => FailureModel::TruncatedPayload,
            FailureKind::UnknownDataType(code, payload) => FailureModel::UnknownDataType(
                *code,
                payload@,
            ),
            FailureKind::SequenceGap(n) => FailureModel::SequenceGap(*n),
        }
    }
}

/// One successfully decoded frame, as handed to the consumer.
#[derive(Clone, Debug)]
pub struct Packet {
    /// Reconstructed absolute time in seconds, best-effort: the absolute
    /// clock of the last time-sync frame reconciled with this frame's
    /// time-low byte, or zero while no time-sync frame has been seen.
    pub time: u32,
    /// The 16-bit sub-second counter, as received.
    pub subsec: u16,
    /// The protocol version reported by the last version frame, or zero
    /// while none has been seen.
    pub version: u32,
    /// The classified data type of the frame.
    pub datatype: DataType,
    /// The 8-bit sequence number of the frame.
    pub sequence: u8,
    /// How many frames were lost right before this one (0 when none):
    /// the distance mod 256 from the expected successor of the previous
    /// sequence number. Informational only; it never blocks the frame.
    pub gap: u8,
    /// The payload bytes, after the absolute-time or version field of a
    /// time-sync or version frame has been removed.
    pub payload: Vec<u8>,
}

/// What one decode attempt yields.
#[derive(Clone, Debug)]
pub enum FrameOutcome {
    /// One frame was validated and decoded.
    Decoded(Packet),
    /// No complete frame is available; append more bytes and call again.
    AwaitingMoreData,
    /// One corrupt frame was consumed and rejected; calling again resumes
    /// scanning at the bytes that follow it.
    Rejected(FailureKind),
}

/// The mathematical value of a [`Packet`].
#[verifier::ext_equal]
pub struct PacketModel {
    pub time: u32,
    pub subsec: u16,
    pub version: u32,
    pub datatype: DataType,
    pub sequence: u8,
    pub gap: u8,
    pub payload: Seq<u8>,
}

/// The mathematical value of a [`FrameOutcome`].
#[verifier::ext_equal]
pub enum OutcomeModel {
    Decoded(PacketModel),
    AwaitingMoreData,
    Rejected(FailureModel),
}

/// The mathematical state of a [`Decoder`]: the buffered bytes and the
/// sequence, clock and version state carried across frames.
#[verifier::ext_equal]
pub struct DecoderModel {
    /// The bytes not yet decoded, front first.
    pub buf: Seq<u8>,
    /// The last observed sequence number, or `None` before the first frame.
    pub prev_seq: Option<u8>,
    /// The absolute seconds of the most recent time-sync frame, or `None`
    /// before the first one.
    pub clock: Option<u32>,
    /// The protocol version of the most recent version frame, or zero.
    pub version: u32,
}

impl View for Packet {
    type V = PacketModel;

    open spec fn view(&self) -> PacketModel {
        PacketModel {
            time: self.time,
            subsec: self.subsec,
            version: self.version,
            datatype: self.datatype,
            sequence: self.sequence,
            gap: self.gap,
            payload: self.payload@,
        }
    }
}

impl View for FrameOutcome {
    type V = OutcomeModel;

    open spec fn view(&self) -> OutcomeModel {
        match self {
            FrameOutcome::Decoded(p) => OutcomeModel::Decoded(p@),
            FrameOutcome::AwaitingMoreData => OutcomeModel::AwaitingMoreData,
            FrameOutcome::Rejected(k) => OutcomeModel::Rejected(k@),
        }
    }
}

/// What the synchronizer leaves in the buffer when it exhausts it without
/// finding a marker: nothing, except a trailing first-marker byte that the
/// next chunk may complete.
pub open spec fn sync_rest(s: Seq<u8>) -> Seq<u8> {
    if s.len() > 0 && s.last() == MARKER0 {
        seq![MARKER0]
    } else {
        Seq::<u8>::empty()
    }
}

/// One decode attempt on a buffer whose front `t` starts with the marker:
/// the successor state and the outcome.
pub open spec fn spec_step_at_marker(m: DecoderModel, t: Seq<u8>) -> (DecoderModel, OutcomeModel) {
    if t.len() < 16 {
        // Not even the minimum frame: put the marker back and wait.
        (
            DecoderModel { buf: t, prev_seq: m.prev_seq, clock: m.clock, version: m.version },
            OutcomeModel::AwaitingMoreData,
        )
    } else {
        let dl = le16(t[3], t[4]);
        let inv = le16(t[5], t[6]);
        if dl != complement16(inv) {
            // Corrupt length: reject, having consumed marker, checksum and
            // the four length bytes; rescanning resumes right after them.
            (
                DecoderModel {
                    buf: t.skip(7),
                    prev_seq: m.prev_seq,
                    clock: m.clock,
                    version: m.version,
                },
                OutcomeModel::Rejected(FailureModel::LengthMismatch),
            )
        } else {
            let plen: int = if dl >= 1 {
                dl - 1
            } else {
                0
            };
            if t.len() < 12 + plen {
                // Truncated payload: restore the reservoir and wait.
                (
                    DecoderModel {
                        buf: t,
                        prev_seq: m.prev_seq,
                        clock: m.clock,
                        version: m.version,
                    },
                    OutcomeModel::AwaitingMoreData,
                )
            } else {
                spec_decode_frame(m, t)
            }
        }
    }
}

/// Decoding of one complete frame at the front of `t`: field extraction,
/// sequence tracking, checksum validation, classification, and clock and
/// version reconstruction.
pub open spec fn spec_decode_frame(m: DecoderModel, t: Seq<u8>) -> (DecoderModel, OutcomeModel) {
    let cksum = t[2];
    let dl = le16(t[3], t[4]);
    let plen: int = if dl >= 1 {
        dl - 1
    } else {
        0
    };
    let tlow = t[7];
    let subsec = le16(t[8], t[9]);
    let seq = t[10];
    let id = t[11];
    let payload = t.subrange(12, 12 + plen);
    let rest = t.skip(12 + plen);
    let gap = spec_gap(m.prev_seq, seq);
    if frame_checksum(id, payload) != cksum {
        (
            DecoderModel {
                buf: rest,
                prev_seq: Some(seq),
                clock: m.clock,
                version: m.version,
            },
            OutcomeModel::Rejected(FailureModel::ChecksumMismatch),
        )
    } else {
        let dt = spec_data_type(id);
        if dt is Invalid {
            (
                DecoderModel {
                    buf: rest,
                    prev_seq: Some(seq),
                    clock: m.clock,
                    version: m.version,
                },
                OutcomeModel::Rejected(FailureModel::UnknownDataType(id, payload)),
            )
        } else {
            let clock2 = if dt == DataType::ZeoTimestamp {
                Some(le32_padded(payload))
            } else {
                m.clock
            };
            let version2 = if dt == DataType::Version {
                le32_padded(payload)
            } else {
                m.version
            };
            let exposed = if dt == DataType::ZeoTimestamp || dt == DataType::Version {
                payload.skip(if plen < 4 {
                    plen
                } else {
                    4
                })
            } else {
                payload
            };
            (
                DecoderModel { buf: rest, prev_seq: Some(seq), clock: clock2, version: version2 },
                OutcomeModel::Decoded(
                    PacketModel {
                        time: spec_time_of(clock2, tlow),
                        subsec,
                        version: version2,
                        datatype: dt,
                        sequence: seq,
                        gap,
                        payload: exposed,
                    },
                ),
            )
        }
    }
}

/// One decode attempt: what [`Decoder::decode_next`] does to the state, and
/// what it returns.
pub open spec fn spec_step(m: DecoderModel) -> (DecoderModel, OutcomeModel) {
    match first_marker(m.buf) {
        Option::None => (
            DecoderModel {
                buf: sync_rest(m.buf),
                prev_seq: m.prev_seq,
                clock: m.clock,
                version: m.version,
            },
            OutcomeModel::AwaitingMoreData,
        ),
        Option::Some(i) => spec_step_at_marker(m, m.buf.skip(i)),
    }
}

/// Finds the first frame marker in the buffer, scanning a two-byte window
/// from the front, without consuming anything.
fn scan_marker(b: &FixedCircularBuffer<u8, 512>) -> (r: Option<usize>)
    ensures
        match r {
            Option::Some(i) => first_marker(rb_bytes(*b)) == Some(i as int),
            Option::None => first_marker(rb_bytes(*b)) is None,
        },
{
    let ghost s = rb_bytes(*b);
    let n = rb_len(b);
    if n < 2 {
        proof {
            assert(forall|k: int| 0 <= k ==> !marker_at(s, k));
            lemma_first_marker_from_none(s, 0);
        }
        return None;
    }
    let mut i: usize = 0;
    while i + 1 < n
        invariant
            i < n,
            n == s.len(),
            s == rb_bytes(*b),
            forall|k: int| 0 <= k < i ==> !marker_at(s, k),
        decreases n - i,
    {
        let b0 = rb_get(b, i);
        let b1 = rb_get(b, i + 1);
        if b0 == MARKER0 && b1 == MARKER1 {
            proof {
                lemma_first_marker_from_found(s, 0, i as int);
            }
            return Some(i);
        }
        i = i + 1;
    }
    proof {
        assert(forall|k: int| 0 <= k ==> !marker_at(s, k)) by {
            assert(forall|k: int| 0 <= k < i ==> !marker_at(s, k));
            assert(forall|k: int| i <= k ==> k + 1 >= s.len() && !marker_at(s, k));
        }
        lemma_first_marker_from_none(s, 0);
    }
    None
}

/// Removes the `k` front bytes of the buffer.
fn discard(b: &mut FixedCircularBuffer<u8, 512>, k: usize)
    requires
        k <= rb_bytes(*old(b)).len(),
    ensures
        rb_bytes(*final(b)) == rb_bytes(*old(b)).skip(k as int),
{
    let ghost s = rb_bytes(*b);
    let mut j: usize = 0;
    while j < k
        invariant
            j <= k,
            k <= s.len(),
            rb_bytes(*b) == s.skip(j as int),
        decreases k - j,
    {
        let _ = rb_pop_front(b);
        proof {
            assert(s.skip(j as int).skip(1) =~= s.skip(j + 1));
        }
        j = j + 1;
    }
    proof {
        assert(rb_bytes(*b) =~= s.skip(k as int));
    }
}

/// Removes and returns the front byte of a non-empty buffer.
fn take_byte(b: &mut FixedCircularBuffer<u8, 512>) -> (r: u8)
    requires
        rb_bytes(*old(b)).len() > 0,
    ensures
        r == rb_bytes(*old(b))[0],
        rb_bytes(*final(b)) == rb_bytes(*old(b)).skip(1),
{
    rb_pop_front(b).unwrap()
}

/// Reads the 16-bit value sent as `lo` then `hi`, least significant first.
fn read_le16(lo: u8, hi: u8) -> (r: u16)
    ensures
        r == le16(lo, hi),
{
    lo as u16 + (hi as u16) * 256
}

/// Reads the 32-bit value carried little-endian by the first four bytes of
/// `v`, defaulting missing trailing bytes to zero.
fn read_le32_padded(v: &Vec<u8>) -> (r: u32)
    ensures
        r == le32_padded(v@),
{
    let b0: u8 = if v.len() > 0 { v[0] } else { 0 };
    let b1: u8 = if v.len() > 1 { v[1] } else { 0 };
    let b2: u8 = if v.len() > 2 { v[2] } else { 0 };
    let b3: u8 = if v.len() > 3 { v[3] } else { 0 };
    b0 as u32 + (b1 as u32) * 0x100 + (b2 as u32) * 0x10000 + (b3 as u32) * 0x1000000
}

/// The suffix of `v` from position `start` on, as a fresh vector.
fn vec_tail(v: &Vec<u8>, start: usize) -> (r: Vec<u8>)
    requires
        start <= v.len(),
    ensures
        r@ == v@.skip(start as int),
{
    let mut r: Vec<u8> = Vec::new();
    let mut j: usize = start;
    while j < v.len()
        invariant
            start <= j <= v@.len(),
            r@ == v@.subrange(start as int, j as int),
        decreases v@.len() - j,
    {
        let b = v[j];
        r.push(b);
        proof {
            assert(v@.subrange(start as int, j + 1) =~= v@.subrange(start as int, j as int).push(
                b,
            ));
        }
        j = j + 1;
    }
    proof {
        assert(v@.subrange(start as int, v@.len() as int) =~= v@.skip(start as int));
    }
    r
}

/// Reconciles the absolute clock `a` with a frame's time-low byte `t`: the
/// value among `a`, one second less and one second more whose low 8 bits
/// equal `t`, tried in that order; when none matches, the device likely
/// reset, and the raw absolute value is taken as authoritative.
pub fn reconcile(a: u32, t: u8) -> (r: u32)
    ensures
        r == spec_reconcile(a, t),
{
    let down: u32 = if a == 0 { 0 } else { a - 1 };
    let up: u32 = if a == 0xFFFF_FFFF { a } else { a + 1 };
    if (a % 256) as u8 == t {
        a
    } else if (down % 256) as u8 == t {
        down
    } else if (up % 256) as u8 == t {
        up
    } else {
        a
    }
}

/// How many frames were lost between the previous sequence number `p` and
/// the current one, mod 256.
fn gap_from(p: u8, seq: u8) -> (r: u8)
    ensures
        r == spec_gap(Some(p), seq),
{
    let expected: u8 = if p == 255 { 0 } else { p + 1 };
    if seq >= expected {
        seq - expected
    } else {
        255 - expected + seq + 1
    }
}

/// One streaming decode session.
pub struct Decoder {
    ring: FixedCircularBuffer<u8, 512>,
    prev_seq: Option<u8>,
    clock: Option<u32>,
    version: u32,
}

impl View for Decoder {
    type V = DecoderModel;

    closed spec fn view(&self) -> DecoderModel {
        DecoderModel {
            buf: rb_bytes(self.ring),
            prev_seq: self.prev_seq,
            clock: self.clock,
            version: self.version,
        }
    }
}

impl Decoder {
    /// The buffered bytes never exceed the reservoir capacity. Established
    /// by [`Decoder::new`] and preserved by every method.
    pub open spec fn wf(&self) -> bool {
        self@.buf.len() <= RESERVOIR_CAPACITY
    }

    /// A fresh session: empty reservoir, no sequence, clock or version state.
    pub fn new() -> (r: Decoder)
        ensures
            r@ == (DecoderModel {
                buf: Seq::<u8>::empty(),
                prev_seq: None::<u8>,
                clock: None::<u32>,
                version: 0u32,
            }),
            r.wf(),
    {
        Decoder { ring: rb_new(), prev_seq: None, clock: None, version: 0 }
    }

    /// Appends newly received bytes at the back of the reservoir. When the
    /// capacity would be exceeded, the oldest buffered bytes are evicted in
    /// favour of the new ones.
    pub fn append(&mut self, bytes: &[u8])
        ensures
            final(self)@ == (DecoderModel {
                buf: evict_to_capacity(old(self)@.buf + bytes@),
                prev_seq: old(self)@.prev_seq,
                clock: old(self)@.clock,
                version: old(self)@.version,
            }),
            final(self).wf(),
    {
        rb_extend(&mut self.ring, bytes);
    }

    /// Attempts to decode or reject exactly one frame, or reports that more
    /// bytes are needed.
    ///
    /// One call performs one step of [`spec_step`] on the session state:
    /// bytes before the first marker are discarded; a frame whose redundant
    /// length or checksum is corrupt is consumed whole and rejected; a frame
    /// that is still incomplete leaves the reservoir as it was found, marker
    /// restored at the front, and yields
    /// [`FrameOutcome::AwaitingMoreData`]. Call in a loop after every
    /// [`Decoder::append`] until it yields `AwaitingMoreData`.
    pub fn decode_next(&mut self) -> (out: FrameOutcome)
        requires
            old(self).wf(),
        ensures
            final(self)@ == spec_step(old(self)@).0,
            out@ == spec_step(old(self)@).1,
            final(self).wf(),
    {
        let ghost m0 = self@;
        let ghost s = m0.buf;
        match scan_marker(&self.ring) {
            None => {
                let n = rb_len(&self.ring);
                if n == 0 {
                    proof {
                        assert(rb_bytes(self.ring) =~= sync_rest(s));
                        assert(self@ =~= spec_step(m0).0);
                    }
                    return FrameOutcome::AwaitingMoreData;
                }
                let last = rb_get(&self.ring, n - 1);
                if last == MARKER0 {
                    discard(&mut self.ring, n - 1);
                    proof {
                        assert(rb_bytes(self.ring) =~= sync_rest(s));
                        assert(self@ =~= spec_step(m0).0);
                    }
                } else {
                    discard(&mut self.ring, n);
                    proof {
                        assert(rb_bytes(self.ring) =~= sync_rest(s));
                        assert(self@ =~= spec_step(m0).0);
                    }
                }
                FrameOutcome::AwaitingMoreData
            },
            Some(i) => self.step_at_marker(i),
        }
    }

    /// One decode attempt on a reservoir whose first marker stands at
    /// position `i`.
    fn step_at_marker(&mut self, i: usize) -> (out: FrameOutcome)
        requires
            old(self).wf(),
            first_marker(old(self)@.buf) == Some(i as int),
        ensures
            final(self)@ == spec_step_at_marker(old(self)@, old(self)@.buf.skip(i as int)).0,
            out@ == spec_step_at_marker(old(self)@, old(self)@.buf.skip(i as int)).1,
            final(self).wf(),
    {
        let ghost m0 = self@;
        let ghost s = m0.buf;
        let ghost t = s.skip(i as int);
        proof {
            lemma_first_marker_from_char(s, 0);
            assert(marker_at(s, i as int));
            assert(t[0] == MARKER0 && t[1] == MARKER1);
        }
        let n = rb_len(&self.ring);
        if n - i < 16 {
            // Less than a minimum frame after the marker: leave everything
            // from the marker on in place and await more bytes.
            discard(&mut self.ring, i);
            proof {
                assert(self@ =~= spec_step_at_marker(m0, t).0);
            }
            return FrameOutcome::AwaitingMoreData;
        }
        // Consume the two marker bytes and the fixed header fields.
        discard(&mut self.ring, i + 2);
        proof {
            assert(s.skip(i + 2) =~= t.skip(2));
        }
        let cksum = take_byte(&mut self.ring);
        proof {
            assert(t.skip(2).skip(1) =~= t.skip(3));
        }
        let l0 = take_byte(&mut self.ring);
        proof {
            assert(t.skip(3).skip(1) =~= t.skip(4));
        }
        let l1 = take_byte(&mut self.ring);
        proof {
            assert(t.skip(4).skip(1) =~= t.skip(5));
        }
        let i0 = take_byte(&mut self.ring);
        proof {
            assert(t.skip(5).skip(1) =~= t.skip(6));
        }
        let i1 = take_byte(&mut self.ring);
        proof {
            assert(t.skip(6).skip(1) =~= t.skip(7));
        }
        let dl = read_le16(l0, l1);
        let inv = read_le16(i0, i1);
        let comp: u16 = 65535 - inv;
        if dl != comp {
            // The redundant length disagrees: the frame is corrupt, and the
            // declared length cannot be trusted to consume payload bytes.
            proof {
                assert(self@ =~= spec_step_at_marker(m0, t).0);
            }
            return FrameOutcome::Rejected(FailureKind::LengthMismatch);
        }
        let plen16: u16 = if dl >= 1 {
            dl - 1
        } else {
            0
        };
        let plen: usize = plen16 as usize;
        let rem = rb_len(&self.ring);
        if rem < 5 + plen {
            // Truncated payload: fewer bytes than the frame declares are
            // available so far. Push the provisionally read header bytes
            // back onto the front, so the next call re-finds this very
            // marker once more bytes have arrived.
            rb_push_front(&mut self.ring, i1);
            rb_push_front(&mut self.ring, i0);
            rb_push_front(&mut self.ring, l1);
            rb_push_front(&mut self.ring, l0);
            rb_push_front(&mut self.ring, cksum);
            rb_push_front(&mut self.ring, MARKER1);
            rb_push_front(&mut self.ring, MARKER0);
            proof {
                assert(rb_bytes(self.ring) =~= t);
                assert(self@ =~= spec_step_at_marker(m0, t).0);
            }
            return FrameOutcome::AwaitingMoreData;
        }
        let tlow = take_byte(&mut self.ring);
        proof {
            assert(t.skip(7).skip(1) =~= t.skip(8));
        }
        let ss0 = take_byte(&mut self.ring);
        proof {
            assert(t.skip(8).skip(1) =~= t.skip(9));
        }
        let ss1 = take_byte(&mut self.ring);
        proof {
            assert(t.skip(9).skip(1) =~= t.skip(10));
        }
        let subsec = read_le16(ss0, ss1);
        let seqn = take_byte(&mut self.ring);
        proof {
            assert(t.skip(10).skip(1) =~= t.skip(11));
        }
        let id = take_byte(&mut self.ring);
        proof {
            assert(t.skip(11).skip(1) =~= t.skip(12));
        }
        // The header is fully parsed: the sequence tracker updates now,
        // whatever the checksum or classification outcome.
        let gap: u8 = match self.prev_seq {
            Some(p) => gap_from(p, seqn),
            None => 0,
        };
        self.prev_seq = Some(seqn);
        let ghost payload_spec = t.subrange(12, 12 + plen as int);
        let mut payload: Vec<u8> = Vec::new();
        let mut sum: u32 = id as u32;
        let mut k: usize = 0;
        while k < plen
            invariant
                k <= plen,
                plen <= 65534,
                12 + plen <= t.len(),
                rb_bytes(self.ring) == t.skip(12 + k),
                payload@ == t.subrange(12, 12 + k as int),
                sum == id + byte_sum(payload@),
                sum <= 255 + 255 * k,
                self.prev_seq == Some(seqn),
                self.clock == m0.clock,
                self.version == m0.version,
            decreases plen - k,
        {
            let b = take_byte(&mut self.ring);
            proof {
                assert(t.skip(12 + k as int).skip(1) =~= t.skip(12 + k + 1));
                assert(t.subrange(12, 12 + k + 1) =~= t.subrange(12, 12 + k as int).push(b));
                assert(payload@.push(b).drop_last() =~= payload@);
            }
            sum = sum + b as u32;
            payload.push(b);
            k = k + 1;
        }
        proof {
            assert(payload@ == payload_spec);
            assert(rb_bytes(self.ring) == t.skip(12 + plen as int));
            lemma_byte_sum_bound(payload_spec);
        }
        let computed: u8 = (sum % 256) as u8;
        if computed != cksum {
            proof {
                assert(computed == frame_checksum(id, payload_spec));
                assert(self@ =~= spec_decode_frame(m0, t).0);
            }
            return FrameOutcome::Rejected(FailureKind::ChecksumMismatch);
        }
        let dt = DataType::from(id);
        if let DataType::Invalid(_) = dt {
            // The frame is consumed, but its payload travels with the
            // rejection so a logger can keep it.
            let out = FrameOutcome::Rejected(FailureKind::UnknownDataType(id, payload));
            proof {
                assert(self@ =~= spec_decode_frame(m0, t).0);
                assert(out@ =~= spec_decode_frame(m0, t).1);
            }
            return out;
        }
        let packet: Packet;
        if dt == DataType::ZeoTimestamp {
            // The first four payload bytes are the absolute clock; they feed
            // the timestamp reconciler and are not exposed to the consumer.
            let abs = read_le32_padded(&payload);
            self.clock = Some(abs);
            let time = reconcile(abs, tlow);
            let cut: usize = if payload.len() < 4 {
                payload.len()
            } else {
                4
            };
            let exposed = vec_tail(&payload, cut);
            packet = Packet {
                time,
                subsec,
                version: self.version,
                datatype: dt,
                sequence: seqn,
                gap,
                payload: exposed,
            };
        } else if dt == DataType::Version {
            // The first four payload bytes are the protocol version; they
            // update the clock state and are not exposed to the consumer.
            let ver = read_le32_padded(&payload);
            self.version = ver;
            let time = match self.clock {
                Some(a) => reconcile(a, tlow),
                None => 0,
            };
            let cut: usize = if payload.len() < 4 {
                payload.len()
            } else {
                4
            };
            let exposed = vec_tail(&payload, cut);
            packet = Packet {
                time,
                subsec,
                version: ver,
                datatype: dt,
                sequence: seqn,
                gap,
                payload: exposed,
            };
        } else {
            let time = match self.clock {
                Some(a) => reconcile(a, tlow),
                None => 0,
            };
            packet = Packet {
                time,
                subsec,
                version: self.version,
                datatype: dt,
                sequence: seqn,
                gap,
                payload,
            };
        }
        proof {
            assert(self@ =~= spec_decode_frame(m0, t).0);
            assert(packet@ =~= (match spec_decode_frame(m0, t).1 {
                OutcomeModel::Decoded(p) => p,
                _ => packet@,
            }));
            assert(spec_decode_frame(m0, t).1 is Decoded);
        }
        FrameOutcome::Decoded(packet)
    }

    /// The bytes not yet decoded, front first.
    pub fn pending(&self) -> (r: Vec<u8>)
        ensures
            r@ == self@.buf,
    {
        let n = rb_len(&self.ring);
        let mut r: Vec<u8> = Vec::new();
        let mut j: usize = 0;
        while j < n
            invariant
                j <= n,
                n == rb_bytes(self.ring).len(),
                r@ == rb_bytes(self.ring).subrange(0, j as int),
            decreases n - j,
        {
            let b = rb_get(&self.ring, j);
            r.push(b);
            proof {
                assert(rb_bytes(self.ring).subrange(0, j + 1) =~= rb_bytes(self.ring).subrange(
                    0,
                    j as int,
                ).push(b));
            }
            j = j + 1;
        }
        proof {
            assert(rb_bytes(self.ring).subrange(0, n as int) =~= rb_bytes(self.ring));
        }
        r
    }
}

} // verus!
