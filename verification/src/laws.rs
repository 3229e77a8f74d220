//! Laws of the decoder, proved once and for all inputs.
//!
//! Each proof function here states a guarantee of [`spec_step`], the
//! transition that [`crate::Decoder::decode_next`] is proved to perform, so
//! each holds of every decoding session.

use vstd::prelude::*;

use crate::decoder::DecoderModel;
use crate::decoder::FailureModel;
use crate::decoder::OutcomeModel;
use crate::decoder::PacketModel;
use crate::decoder::spec_decode_frame;
use crate::decoder::spec_step;
use crate::decoder::spec_step_at_marker;
use crate::decoder::sync_rest;
use crate::types::DataType;
use crate::types::spec_data_type;
use crate::wire::MARKER0;
use crate::wire::MARKER1;
use crate::wire::complement16;
use crate::wire::frame_bytes;
use crate::wire::first_marker;
use crate::wire::frame_checksum;
use crate::wire::le16;
use crate::wire::le32_padded;
use crate::wire::lemma_first_marker_from_char;
use crate::wire::lemma_first_marker_from_found;
use crate::wire::lemma_first_marker_from_none;
use crate::wire::lemma_le16_split;
use crate::wire::marker_at;
use crate::wire::spec_gap;
use crate::wire::spec_time_of;

verus! {

/// A buffer that starts with one whole frame whose redundant length is
/// consistent parses up to the checksum decision: the step decodes that
/// frame's fields, whatever the checksum byte and identifier hold.
proof fn lemma_frame_parse(
    m: DecoderModel,
    cksum: u8,
    dl: u16,
    tlow: u8,
    subsec: u16,
    seq: u8,
    id: u8,
    payload: Seq<u8>,
    rest: Seq<u8>,
)
    requires
        m.buf == frame_bytes(cksum, dl, complement16(dl), tlow, subsec, seq, id, payload) + rest,
        payload.len() == dl - 1,
        dl >= 1,
        12 + payload.len() + rest.len() >= 16,
    ensures
        spec_step(m) == spec_decode_frame(m, m.buf),
        m.buf[2] == cksum,
        le16(m.buf[3], m.buf[4]) == dl,
        m.buf[7] == tlow,
        le16(m.buf[8], m.buf[9]) == subsec,
        m.buf[10] == seq,
        m.buf[11] == id,
        m.buf.subrange(12, 12 + (dl - 1)) == payload,
        m.buf.skip(12 + (dl - 1)) == rest,
{
    let s = m.buf;
    assert(s[0] == MARKER0 && s[1] == MARKER1);
    assert(marker_at(s, 0));
    lemma_first_marker_from_found(s, 0, 0);
    assert(s.skip(0) =~= s);
    lemma_le16_split(dl);
    lemma_le16_split(complement16(dl));
    lemma_le16_split(subsec);
    assert(complement16(complement16(dl)) == dl);
    assert(s.subrange(12, 12 + (dl - 1)) =~= payload);
    assert(s.skip(12 + (dl - 1)) =~= rest);
}

/// Every well-formed frame decodes exactly.
///
/// For every buffer that starts with a frame whose length matches its
/// redundancy field and whose checksum is correct over a recognized data
/// type — whatever bytes the payload holds, the marker bytes included, and
/// whatever follows the frame — one decode step yields `Decoded` carrying
/// exactly the identifier's data type, the sequence number, the sub-second
/// counter and the payload bytes the frame was built from (a time-sync or
/// version frame exposes the payload with its leading four-byte field
/// removed); it consumes exactly the frame, leaving the trailing bytes
/// buffered; and the sequence, clock and version state update as stated.
pub proof fn lemma_valid_frame_decodes(
    m: DecoderModel,
    dl: u16,
    tlow: u8,
    subsec: u16,
    seq: u8,
    id: u8,
    payload: Seq<u8>,
    rest: Seq<u8>,
)
    requires
        m.buf == frame_bytes(
            frame_checksum(id, payload),
            dl,
            complement16(dl),
            tlow,
            subsec,
            seq,
            id,
            payload,
        ) + rest,
        payload.len() == dl - 1,
        dl >= 1,
        12 + payload.len() + rest.len() >= 16,
        !(spec_data_type(id) is Invalid),
    ensures
        spec_step(m).1 is Decoded,
        ({
            let p = spec_step(m).1->Decoded_0;
            &&& p.datatype == spec_data_type(id)
            &&& p.sequence == seq
            &&& p.subsec == subsec
            &&& p.gap == spec_gap(m.prev_seq, seq)
            &&& p.version == (if spec_data_type(id) == DataType::Version {
                le32_padded(payload)
            } else {
                m.version
            })
            &&& p.time == spec_time_of(
                if spec_data_type(id) == DataType::ZeoTimestamp {
                    Some(le32_padded(payload))
                } else {
                    m.clock
                },
                tlow,
            )
            &&& p.payload == (if spec_data_type(id) == DataType::ZeoTimestamp || spec_data_type(
                id,
            ) == DataType::Version {
                payload.skip(
                    if payload.len() < 4 {
                        payload.len() as int
                    } else {
                        4
                    },
                )
            } else {
                payload
            })
        }),
        spec_step(m).0.buf == rest,
        spec_step(m).0.prev_seq == Some(seq),
        spec_step(m).0.clock == (if spec_data_type(id) == DataType::ZeoTimestamp {
            Some(le32_padded(payload))
        } else {
            m.clock
        }),
        spec_step(m).0.version == (if spec_data_type(id) == DataType::Version {
            le32_padded(payload)
        } else {
            m.version
        }),
{
    lemma_frame_parse(m, frame_checksum(id, payload), dl, tlow, subsec, seq, id, payload, rest);
}

/// A frame whose declared length disagrees with its bitwise-complement
/// redundancy field is rejected as `LengthMismatch`, and the reservoir
/// afterwards holds exactly the unconsumed trailing bytes: the marker,
/// checksum byte and the four length bytes are consumed, nothing more and
/// nothing less, and no other session state changes.
pub proof fn lemma_length_mismatch_rejects(
    m: DecoderModel,
    cksum: u8,
    dl: u16,
    inv: u16,
    tail: Seq<u8>,
)
    requires
        m.buf == seq![
            MARKER0,
            MARKER1,
            cksum,
            (dl % 256) as u8,
            (dl / 256) as u8,
            (inv % 256) as u8,
            (inv / 256) as u8,
        ] + tail,
        dl != complement16(inv),
        tail.len() >= 9,
    ensures
        spec_step(m).1 == OutcomeModel::Rejected(FailureModel::LengthMismatch),
        spec_step(m).0.buf == tail,
        spec_step(m).0.prev_seq == m.prev_seq,
        spec_step(m).0.clock == m.clock,
        spec_step(m).0.version == m.version,
{
    let s = m.buf;
    assert(s[0] == MARKER0 && s[1] == MARKER1);
    assert(marker_at(s, 0));
    lemma_first_marker_from_found(s, 0, 0);
    assert(s.skip(0) =~= s);
    lemma_le16_split(dl);
    lemma_le16_split(inv);
    assert(s.skip(7) =~= tail);
}

/// Flipping any single bit of a frame's correct checksum byte makes the
/// step reject the frame as `ChecksumMismatch`; the whole frame is
/// consumed, the sequence tracker still updates (the header parsed), and
/// the clock and version state stay untouched.
pub proof fn lemma_flipped_checksum_rejects(
    m: DecoderModel,
    dl: u16,
    tlow: u8,
    subsec: u16,
    seq: u8,
    id: u8,
    payload: Seq<u8>,
    rest: Seq<u8>,
    bit: u8,
)
    requires
        bit < 8,
        m.buf == frame_bytes(
            (frame_checksum(id, payload) ^ (1u8 << bit)) as u8,
            dl,
            complement16(dl),
            tlow,
            subsec,
            seq,
            id,
            payload,
        ) + rest,
        payload.len() == dl - 1,
        dl >= 1,
        12 + payload.len() + rest.len() >= 16,
    ensures
        spec_step(m).1 == OutcomeModel::Rejected(FailureModel::ChecksumMismatch),
        spec_step(m).0.buf == rest,
        spec_step(m).0.prev_seq == Some(seq),
        spec_step(m).0.clock == m.clock,
        spec_step(m).0.version == m.version,
{
    let good = frame_checksum(id, payload);
    let cksum = (good ^ (1u8 << bit)) as u8;
    assert(cksum != good) by (bit_vector)
        requires
            bit < 8,
            cksum == (good ^ (1u8 << bit)) as u8,
    ;
    lemma_frame_parse(m, cksum, dl, tlow, subsec, seq, id, payload, rest);
}

/// The same session state with more bytes appended at the back of the
/// buffer, as a lossless append leaves it.
pub open spec fn extended(m: DecoderModel, b: Seq<u8>) -> DecoderModel {
    DecoderModel { buf: m.buf + b, prev_seq: m.prev_seq, clock: m.clock, version: m.version }
}

/// A decode attempt at a marker reads nothing of the session state but the
/// sequence, clock and version fields.
proof fn lemma_step_at_marker_same(m1: DecoderModel, m2: DecoderModel, t: Seq<u8>)
    requires
        m1.prev_seq == m2.prev_seq,
        m1.clock == m2.clock,
        m1.version == m2.version,
    ensures
        spec_step_at_marker(m1, t) == spec_step_at_marker(m2, t),
{
    assert(spec_step_at_marker(m1, t).0 =~= spec_step_at_marker(m2, t).0);
    assert(spec_step_at_marker(m1, t).1 =~= spec_step_at_marker(m2, t).1);
}

/// Skipping a marker-free prefix shifts the first marker position.
proof fn lemma_no_marker_prefix(u: Seq<u8>, d: int)
    requires
        0 <= d <= u.len(),
        forall|k: int| 0 <= k < d ==> !marker_at(u, k),
    ensures
        first_marker(u) == match first_marker(u.skip(d)) {
            Option::Some(j) => Some(d + j),
            Option::None => None::<int>,
        },
{
    let v = u.skip(d);
    lemma_first_marker_from_char(v, 0);
    assert(forall|k: int| d <= k ==> marker_at(u, k) == marker_at(v, k - d));
    match first_marker(v) {
        Option::Some(j) => {
            assert(marker_at(u, d + j));
            assert(forall|k: int| 0 <= k < d + j ==> !marker_at(u, k));
            lemma_first_marker_from_found(u, 0, d + j);
        },
        Option::None => {
            assert(forall|k: int| 0 <= k ==> !marker_at(u, k));
            lemma_first_marker_from_none(u, 0);
        },
    }
}

/// The decoder is chunk-boundary-insensitive.
///
/// Whenever a decode step reports `AwaitingMoreData`, then for every
/// sequence of bytes that arrives next, stepping after a lossless append
/// yields exactly the same outcome and the same successor state, whether
/// the starved step ran or not. Feeding a stream byte by byte therefore
/// yields the same `Decoded` packets, in the same order, as feeding it in
/// one chunk, as long as the reservoir capacity is never exceeded.
pub proof fn lemma_awaiting_commutes(m: DecoderModel, b: Seq<u8>)
    requires
        spec_step(m).1 is AwaitingMoreData,
    ensures
        spec_step(extended(m, b)) == spec_step(extended(spec_step(m).0, b)),
{
    let s = m.buf;
    let w1 = s + b;
    lemma_first_marker_from_char(s, 0);
    match first_marker(s) {
        Option::None => {
            let kept = sync_rest(s);
            let w2 = kept + b;
            let d: int = s.len() - kept.len();
            assert(kept.len() <= s.len());
            assert(forall|k: int| 0 <= k < d ==> !marker_at(w1, k)) by {
                assert(forall|k: int| 0 <= k && k + 1 < s.len() ==> marker_at(w1, k) == marker_at(
                    s,
                    k,
                ));
                assert(forall|k: int|
                    0 <= k < d && k + 1 >= s.len() ==> k == s.len() - 1 && w1[k] != MARKER0);
            }
            assert(w1.skip(d) =~= w2);
            lemma_no_marker_prefix(w1, d);
            match first_marker(w2) {
                Option::Some(j) => {
                    lemma_first_marker_from_char(w2, 0);
                    assert(first_marker(w1) == Some(d + j));
                    assert(w1.skip(d).skip(j) =~= w1.skip(d + j));
                    assert(w1.skip(d + j) =~= w2.skip(j));
                    lemma_step_at_marker_same(extended(m, b), extended(spec_step(m).0, b), w2.skip(
                        j,
                    ));
                },
                Option::None => {
                    assert(first_marker(w1) is None);
                    if b.len() > 0 {
                        assert(w1.len() > 0 && w2.len() > 0 && w1.last() == w2.last());
                        assert(sync_rest(w1) == sync_rest(w2));
                    } else {
                        assert(w1 =~= s);
                        assert(w2 =~= kept);
                        assert(sync_rest(kept) == kept);
                        assert(sync_rest(w1) == sync_rest(w2));
                    }
                    assert(spec_step(extended(m, b)).0 =~= spec_step(
                        extended(spec_step(m).0, b),
                    ).0);
                },
            }
        },
        Option::Some(i) => {
            let t = s.skip(i);
            // An `AwaitingMoreData` outcome at a marker leaves the buffer at
            // the marker: the frame was not consumed.
            assert(spec_step(m).0.buf == t);
            let w2 = t + b;
            assert(forall|k: int| 0 <= k < i ==> !marker_at(w1, k)) by {
                assert(forall|k: int| 0 <= k && k + 1 < s.len() ==> marker_at(w1, k) == marker_at(
                    s,
                    k,
                ));
            }
            assert(w1.skip(i) =~= w2);
            lemma_no_marker_prefix(w1, i);
            assert(marker_at(w2, 0));
            lemma_first_marker_from_found(w2, 0, 0);
            assert(first_marker(w1) == Some(i + 0));
            assert(w2.skip(0) =~= w2);
            lemma_step_at_marker_same(extended(m, b), extended(spec_step(m).0, b), w2);
        },
    }
}

/// A decode step that returns anything but `AwaitingMoreData` consumes at
/// least the marker, the checksum byte and the four length bytes: the
/// buffer strictly shrinks, so a loop that decodes until starvation ends.
pub proof fn lemma_step_consumes(m: DecoderModel)
    ensures
        !(spec_step(m).1 is AwaitingMoreData) ==> spec_step(m).0.buf.len() + 7 <= m.buf.len(),
{
    lemma_first_marker_from_char(m.buf, 0);
}

/// Decoding until starvation: the state once a decode step first reports
/// `AwaitingMoreData`, and every packet decoded on the way there, in order.
pub open spec fn spec_drain(m: DecoderModel) -> (DecoderModel, Seq<PacketModel>)
    decreases m.buf.len(),
    via lemma_drain_decreases
{
    let stepped = spec_step(m);
    if stepped.1 is AwaitingMoreData {
        (stepped.0, Seq::<PacketModel>::empty())
    } else {
        let tail = spec_drain(stepped.0);
        (
            tail.0,
            match stepped.1 {
                OutcomeModel::Decoded(p) => seq![p] + tail.1,
                _ => tail.1,
            },
        )
    }
}

#[via_fn]
proof fn lemma_drain_decreases(m: DecoderModel) {
    lemma_step_consumes(m);
}

/// Chunk boundaries do not change what a stream decodes to.
///
/// When decoding has starved, appending the next bytes and decoding until
/// starvation again yields exactly the same packets, in the same order, and
/// the same final state as if the starved step had never run. Applied
/// chunk by chunk, a stream fed byte by byte decodes to the same packet
/// sequence as the stream fed whole, as long as the reservoir capacity is
/// never exceeded.
pub proof fn lemma_awaiting_drain_commutes(m: DecoderModel, b: Seq<u8>)
    requires
        spec_step(m).1 is AwaitingMoreData,
    ensures
        spec_drain(extended(m, b)) == spec_drain(extended(spec_step(m).0, b)),
{
    lemma_awaiting_commutes(m, b);
}

} // verus!
