//! Decoder for the raw binary framing protocol of the Zeo headband base
//! station.
//!
//! Bytes arrive from an asynchronous serial link in chunks of arbitrary size,
//! with no alignment to frame boundaries. The decoder keeps the bytes that
//! are not yet decoded in a bounded reservoir, resynchronizes on the two-byte
//! frame marker `"A4"`, validates each frame through a redundant length field
//! and a one-byte checksum, tracks sequence-number gaps, and reconstructs a
//! full absolute timestamp from the per-frame time-low byte and the absolute
//! clock value carried only by time-sync frames.
//!
//! The wire format of one frame is `A 4 c ll LL T tt s i d...`: the marker
//! bytes `0x41 0x34`, a checksum byte, a 16-bit little-endian length, the
//! bitwise complement of that length, the low byte of the sender's absolute
//! time, a 16-bit little-endian sub-second counter, a sequence number byte,
//! a data-type identifier byte, and `length - 1` payload bytes (the declared
//! length counts the identifier byte as well). The checksum is the sum of the
//! identifier byte and all payload bytes, modulo 256.

mod decoder;
mod laws;
mod reservoir;
mod types;
mod wire;

pub use decoder::Decoder;
pub use decoder::DecoderModel;
pub use decoder::FailureKind;
pub use decoder::FailureModel;
pub use decoder::FrameOutcome;
pub use decoder::OutcomeModel;
pub use decoder::Packet;
pub use decoder::PacketModel;
pub use decoder::reconcile;
pub use decoder::spec_decode_frame;
pub use decoder::spec_step;
pub use decoder::spec_step_at_marker;
pub use decoder::sync_rest;
pub use laws::extended;
pub use laws::lemma_awaiting_commutes;
pub use laws::lemma_awaiting_drain_commutes;
pub use laws::lemma_flipped_checksum_rejects;
pub use laws::lemma_length_mismatch_rejects;
pub use laws::lemma_step_consumes;
pub use laws::lemma_valid_frame_decodes;
pub use laws::spec_drain;
pub use reservoir::RESERVOIR_CAPACITY;
pub use reservoir::evict_to_capacity;
pub use types::DataType;
pub use types::EventType;
pub use types::FrequencyBins;
pub use types::SleepStages;
pub use types::spec_data_type;
pub use types::spec_event_type;
pub use types::spec_frequency_bin;
pub use types::spec_hz;
pub use types::spec_sleep_stage;
pub use wire::MARKER0;
pub use wire::MARKER1;
pub use wire::byte_sum;
pub use wire::complement16;
pub use wire::first_marker;
pub use wire::frame_bytes;
pub use wire::frame_checksum;
pub use wire::le16;
pub use wire::le32_padded;
pub use wire::marker_at;
pub use wire::spec_gap;
pub use wire::spec_reconcile;
pub use wire::spec_time_of;
