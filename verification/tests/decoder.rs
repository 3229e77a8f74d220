use rawzeo::DataType;
use rawzeo::Decoder;
use rawzeo::FailureKind;
use rawzeo::FrameOutcome;
use rawzeo::Packet;
use rawzeo::reconcile;

/// Builds one well-formed frame around the given payload.
fn frame(tlow: u8, subsec: u16, seq: u8, id: u8, payload: &[u8]) -> Vec<u8> {
    let dl: u16 = payload.len() as u16 + 1;
    let inv: u16 = !dl;
    let sum: u32 = id as u32 + payload.iter().map(|b| *b as u32).sum::<u32>();
    let ck: u8 = (sum % 256) as u8;
    let mut v: Vec<u8> = vec![0x41, 0x34, ck];
    v.extend_from_slice(&dl.to_le_bytes());
    v.extend_from_slice(&inv.to_le_bytes());
    v.push(tlow);
    v.extend_from_slice(&subsec.to_le_bytes());
    v.push(seq);
    v.push(id);
    v.extend_from_slice(payload);
    v
}

fn expect_packet(out: FrameOutcome) -> Packet {
    match out {
        FrameOutcome::Decoded(p) => p,
        other => panic!("expected a decoded packet, got {:?}", other),
    }
}

fn drain(d: &mut Decoder) -> Vec<Packet> {
    let mut packets = Vec::new();
    loop {
        match d.decode_next() {
            FrameOutcome::Decoded(p) => packets.push(p),
            FrameOutcome::Rejected(_) => (),
            FrameOutcome::AwaitingMoreData => return packets,
        }
    }
}

fn packet_key(p: &Packet) -> (DataType, u8, u8, u32, u16, u32, Vec<u8>) {
    (p.datatype, p.sequence, p.gap, p.time, p.subsec, p.version, p.payload.clone())
}

#[test]
fn decodes_valid_waveform_frame() {
    let mut d = Decoder::new();
    d.append(&frame(0x09, 3, 7, 0x80, &[1, 2, 3, 4]));
    let p = expect_packet(d.decode_next());
    assert_eq!(p.datatype, DataType::Waveform);
    assert_eq!(p.sequence, 7);
    assert_eq!(p.subsec, 3);
    assert_eq!(p.gap, 0);
    assert_eq!(p.time, 0);
    assert_eq!(p.version, 0);
    assert_eq!(p.payload, vec![1, 2, 3, 4]);
    assert!(d.pending().is_empty());
    assert!(matches!(d.decode_next(), FrameOutcome::AwaitingMoreData));
}

#[test]
fn length_mismatch_consumes_exactly_the_header() {
    let mut d = Decoder::new();
    let dl: u16 = 5;
    let bad_inv: u16 = !dl ^ 0x0100;
    let mut bytes: Vec<u8> = vec![0x41, 0x34, 0xEA];
    bytes.extend_from_slice(&dl.to_le_bytes());
    bytes.extend_from_slice(&bad_inv.to_le_bytes());
    let trailing: Vec<u8> = vec![0x1F, 0x06, 0x00, 0x84, 0x8A, 0x1F, 0x2B, 0xB3, 0x63];
    bytes.extend_from_slice(&trailing);
    d.append(&bytes);
    let out = d.decode_next();
    assert!(matches!(out, FrameOutcome::Rejected(FailureKind::LengthMismatch)));
    assert_eq!(d.pending(), trailing);
}

#[test]
fn flipped_checksum_bit_rejects() {
    let mut d = Decoder::new();
    let mut bytes = frame(0x09, 3, 7, 0x80, &[1, 2, 3, 4]);
    bytes[2] ^= 0x08;
    d.append(&bytes);
    let out = d.decode_next();
    assert!(matches!(out, FrameOutcome::Rejected(FailureKind::ChecksumMismatch)));
    // The whole corrupt frame was consumed: a following valid frame decodes.
    d.append(&frame(0x09, 4, 8, 0x80, &[5, 6, 7, 8]));
    let p = expect_packet(d.decode_next());
    assert_eq!(p.payload, vec![5, 6, 7, 8]);
}

#[test]
fn byte_by_byte_equals_one_chunk() {
    let mut stream: Vec<u8> = vec![0x00, 0x41, 0x13];
    stream.extend_from_slice(&frame(0x03, 2, 5, 0x8A, &[0x03, 0x10, 0x00, 0x00]));
    stream.extend_from_slice(&frame(0x03, 4, 6, 0x80, &[0x41, 0x34, 0x41, 0x34]));
    stream.extend_from_slice(&[0xEE, 0x41]);
    stream.extend_from_slice(&frame(0x04, 6, 7, 0x9D, &[0x02, 0x00, 0x00, 0x00]));

    let mut whole = Decoder::new();
    whole.append(&stream);
    let from_chunk = drain(&mut whole);

    let mut stepped = Decoder::new();
    let mut from_bytes = Vec::new();
    for b in &stream {
        stepped.append(&[*b]);
        from_bytes.extend(drain(&mut stepped));
    }

    assert_eq!(from_chunk.len(), 3);
    let a: Vec<_> = from_chunk.iter().map(packet_key).collect();
    let b: Vec<_> = from_bytes.iter().map(packet_key).collect();
    assert_eq!(a, b);
}

#[test]
fn sequence_gap_of_one_between_second_and_third() {
    let mut d = Decoder::new();
    d.append(&frame(0x00, 1, 5, 0x80, &[1, 1, 1, 1]));
    d.append(&frame(0x00, 2, 6, 0x80, &[2, 2, 2, 2]));
    d.append(&frame(0x00, 3, 8, 0x80, &[3, 3, 3, 3]));
    let p1 = expect_packet(d.decode_next());
    let p2 = expect_packet(d.decode_next());
    let p3 = expect_packet(d.decode_next());
    assert_eq!(p1.gap, 0);
    assert_eq!(p2.gap, 0);
    assert_eq!(p3.gap, 1);
}

#[test]
fn sequence_gap_wraps_mod_256() {
    let mut d = Decoder::new();
    d.append(&frame(0x00, 1, 254, 0x80, &[1, 1, 1, 1]));
    d.append(&frame(0x00, 2, 255, 0x80, &[2, 2, 2, 2]));
    d.append(&frame(0x00, 3, 0, 0x80, &[3, 3, 3, 3]));
    d.append(&frame(0x00, 4, 2, 0x80, &[4, 4, 4, 4]));
    let gaps: Vec<u8> = drain(&mut d).iter().map(|p| p.gap).collect();
    assert_eq!(gaps, vec![0, 0, 0, 1]);
}

#[test]
fn timestamp_reconciles_exact_then_plus_one() {
    let mut d = Decoder::new();
    // Time-sync frame carrying absolute value 0x0000_1003.
    d.append(&frame(0x03, 1, 1, 0x8A, &[0x03, 0x10, 0x00, 0x00]));
    let sync = expect_packet(d.decode_next());
    assert_eq!(sync.datatype, DataType::ZeoTimestamp);
    assert_eq!(sync.time, 0x1003);
    assert!(sync.payload.is_empty());
    // A data frame in the same second: exact match, no correction.
    d.append(&frame(0x03, 2, 2, 0x80, &[1, 2, 3, 4]));
    let p = expect_packet(d.decode_next());
    assert_eq!(p.time, 0x1003);
    // One second later: reconciled through the +1 branch.
    d.append(&frame(0x04, 3, 3, 0x80, &[1, 2, 3, 4]));
    let p = expect_packet(d.decode_next());
    assert_eq!(p.time, 0x1004);
}

#[test]
fn reconcile_chooses_the_matching_neighbour() {
    assert_eq!(reconcile(0x1003, 0x03), 0x1003);
    assert_eq!(reconcile(0x1003, 0x02), 0x1002);
    assert_eq!(reconcile(0x1003, 0x04), 0x1004);
    // Nothing lines up: the raw absolute value is authoritative.
    assert_eq!(reconcile(0x1003, 0x77), 0x1003);
    // Saturation at the bottom of the clock.
    assert_eq!(reconcile(0, 0xFF), 0);
    assert_eq!(reconcile(0, 0x01), 1);
}

#[test]
fn marker_bytes_inside_payload_do_not_misalign() {
    let mut d = Decoder::new();
    let first = frame(0x00, 1, 1, 0x80, &[0x41, 0x34, 0x41, 0x34, 0x41, 0x34]);
    let second = frame(0x00, 2, 2, 0x83, &[9, 8, 7, 6]);
    let mut stream = first.clone();
    stream.extend_from_slice(&second);
    d.append(&stream);
    let p1 = expect_packet(d.decode_next());
    assert_eq!(p1.payload, vec![0x41, 0x34, 0x41, 0x34, 0x41, 0x34]);
    let p2 = expect_packet(d.decode_next());
    assert_eq!(p2.datatype, DataType::FrequencyBins);
    assert_eq!(p2.payload, vec![9, 8, 7, 6]);
    assert!(d.pending().is_empty());
}

#[test]
fn short_frame_awaits_with_marker_restored() {
    let bytes: Vec<u8> = vec![
        0x41, 0x34, 0xEA, 0x05, 0x00, 0xFA, 0xFF, 0x1F, 0x06, 0x00, 0x84, 0x8A, 0x1F, 0x2B, 0xB3,
    ];
    let mut d = Decoder::new();
    d.append(&bytes);
    let out = d.decode_next();
    assert!(matches!(out, FrameOutcome::AwaitingMoreData));
    assert_eq!(d.pending(), bytes);
    // The missing payload byte arrives; the same marker is found again and
    // the frame decodes as a time-sync frame.
    d.append(&[0x63]);
    let p = expect_packet(d.decode_next());
    assert_eq!(p.datatype, DataType::ZeoTimestamp);
    assert_eq!(p.sequence, 0x84);
    assert_eq!(p.subsec, 6);
    assert_eq!(p.time, 0x63B3_2B1F);
    assert!(p.payload.is_empty());
    assert!(d.pending().is_empty());
}

#[test]
fn truncated_payload_restores_reservoir() {
    let whole = frame(0x00, 1, 1, 0x80, &[7; 20]);
    let (head, tail) = whole.split_at(18);
    let mut d = Decoder::new();
    d.append(&head.to_vec());
    assert!(matches!(d.decode_next(), FrameOutcome::AwaitingMoreData));
    assert_eq!(d.pending(), head.to_vec());
    d.append(&tail.to_vec());
    let p = expect_packet(d.decode_next());
    assert_eq!(p.payload, vec![7; 20]);
}

#[test]
fn unknown_datatype_rejected_with_code_and_payload() {
    let mut d = Decoder::new();
    d.append(&frame(0x00, 1, 1, 0x55, &[1, 2, 3, 4]));
    match d.decode_next() {
        FrameOutcome::Rejected(FailureKind::UnknownDataType(code, payload)) => {
            assert_eq!(code, 0x55);
            // The payload of the unrecognized frame is surfaced for
            // forward-compatibility logging, not silently dropped.
            assert_eq!(payload, vec![1, 2, 3, 4]);
        }
        other => panic!("expected an unknown-data-type rejection, got {:?}", other),
    }
    assert!(d.pending().is_empty());
}

#[test]
fn version_frame_updates_version_state() {
    let mut d = Decoder::new();
    d.append(&frame(0x00, 1, 1, 0x03, &[2, 0, 0, 0]));
    let p = expect_packet(d.decode_next());
    assert_eq!(p.datatype, DataType::Version);
    assert_eq!(p.version, 2);
    assert!(p.payload.is_empty());
    d.append(&frame(0x00, 2, 2, 0x80, &[1, 2, 3, 4]));
    let p = expect_packet(d.decode_next());
    assert_eq!(p.version, 2);
}

#[test]
fn junk_before_marker_is_discarded() {
    let mut d = Decoder::new();
    let mut stream: Vec<u8> = vec![0x00, 0x00, 0x12, 0x41, 0x41, 0x99];
    stream.extend_from_slice(&frame(0x00, 1, 1, 0x9C, &[1, 0, 0, 0]));
    d.append(&stream);
    let p = expect_packet(d.decode_next());
    assert_eq!(p.datatype, DataType::BadSignal);
    assert!(d.pending().is_empty());
}

#[test]
fn trailing_first_marker_byte_is_kept() {
    let mut d = Decoder::new();
    d.append(&[0x07, 0x08, 0x41]);
    assert!(matches!(d.decode_next(), FrameOutcome::AwaitingMoreData));
    assert_eq!(d.pending(), vec![0x41]);
    // The second marker byte and the rest of the frame arrive next.
    let whole = frame(0x00, 1, 1, 0x84, &[9, 0, 0, 0]);
    d.append(&whole[1..].to_vec());
    let p = expect_packet(d.decode_next());
    assert_eq!(p.datatype, DataType::Sqi);
    assert_eq!(p.payload, vec![9, 0, 0, 0]);
}

#[test]
fn overflow_evicts_oldest_bytes() {
    let mut d = Decoder::new();
    let mut bytes: Vec<u8> = Vec::new();
    for k in 0..520 {
        bytes.push((k % 251) as u8);
    }
    d.append(&bytes);
    assert_eq!(d.pending(), bytes[8..].to_vec());
}

#[test]
fn time_sync_with_short_payload_pads_with_zero() {
    let mut d = Decoder::new();
    let mut stream = frame(0x05, 1, 1, 0x8A, &[0x05, 0x00, 0x00]);
    stream.push(0x00);
    d.append(&stream);
    let p = expect_packet(d.decode_next());
    assert_eq!(p.datatype, DataType::ZeoTimestamp);
    assert_eq!(p.time, 5);
    assert!(p.payload.is_empty());
    assert_eq!(d.pending(), vec![0x00]);
}

#[test]
fn subsec_is_read_little_endian() {
    let mut d = Decoder::new();
    d.append(&frame(0x00, 0x0102, 1, 0x97, &[0xA2, 0x81, 0x2A, 0x83]));
    let p = expect_packet(d.decode_next());
    assert_eq!(p.datatype, DataType::Impedance);
    assert_eq!(p.subsec, 0x0102);
}
