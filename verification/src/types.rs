//! Pure mapping tables from raw identifier bytes to semantic enumerations.
//!
//! Every table is a total function on `u8`: identifier bytes that the
//! protocol does not define map to an `Invalid` variant that carries the raw
//! byte, so no input can fail conversion.

use vstd::prelude::*;

verus! {

/// All the types of data frames the base station may send.
#[derive(Clone, Copy, Debug, PartialEq, Eq, Structural)]
pub enum DataType {
    /// An event has occured.
    Event,
    /// Marks the end of a slice of data.
    SliceEnd,
    /// Version of the raw data output.
    Version,
    /// Raw time domain brainwave.
    Waveform,
    /// Frequency bins derived from waveform.
    FrequencyBins,
    /// Signal Quality Index of waveform.
    Sqi,
    /// Timestamp from the RTC of the base station.
    ZeoTimestamp,
    /// Impedance across the headband.
    Impedance,
    /// Signal contains artifacts.
    BadSignal,
    /// Current 30-second sleep stage.
    SleepStage,
    /// Invalid data type, carrying the raw identifier byte.
    Invalid(u8),
}

/// The data type that an identifier byte denotes.
pub open spec fn spec_data_type(b: u8) -> DataType {
    if b == 0x00 {
        DataType::Event
    } else if b == 0x02 {
        DataType::SliceEnd
    } else if b == 0x03 {
        DataType::Version
    } else if b == 0x80 {
        DataType::Waveform
    } else if b == 0x83 {
        DataType::FrequencyBins
    } else if b == 0x84 {
        DataType::Sqi
    } else if b == 0x8A {
        DataType::ZeoTimestamp
    } else if b == 0x97 {
        DataType::Impedance
    } else if b == 0x9C {
        DataType::BadSignal
    } else if b == 0x9D {
        DataType::SleepStage
    } else {
        DataType::Invalid(b)
    }
}

impl From<u8> for DataType {
    fn from(b: u8) -> (r: DataType)
        ensures
            r == spec_data_type(b),
    {
        match b {
            0x00 => DataType::Event,
            0x02 => DataType::SliceEnd,
            0x03 => DataType::Version,
            0x80 => DataType::Waveform,
            0x83 => DataType::FrequencyBins,
            0x84 => DataType::Sqi,
            0x8A => DataType::ZeoTimestamp,
            0x97 => DataType::Impedance,
            0x9C => DataType::BadSignal,
            0x9D => DataType::SleepStage,
            _ => DataType::Invalid(b),
        }
    }
}

impl vstd::std_specs::convert::FromSpecImpl<u8> for DataType {
    open spec fn obeys_from_spec() -> bool {
        true
    }

    open spec fn from_spec(b: u8) -> DataType {
        spec_data_type(b)
    }
}

/// All the types of events that may be fired.
#[derive(Clone, Copy, Debug, PartialEq, Eq, Structural)]
pub enum EventType {
    /// User's night has begun.
    NightStart,
    /// User is asleep.
    SleepOnset,
    /// Headband returned to dock.
    HeadbandDocked,
    /// Headband removed from dock.
    HeadbandUnDocked,
    /// User turned off the alarm.
    AlarmOff,
    /// User hit snooze.
    AlarmSnooze,
    /// Alarm is firing.
    AlarmPlay,
    /// User's night has ended.
    NightEnd,
    /// A new headband ID has been read.
    NewHeadband,
    /// Invalid event, carrying the raw sub-type byte.
    Invalid(u8),
}

/// The event sub-type that a raw byte denotes.
pub open spec fn spec_event_type(b: u8) -> EventType {
    if b == 0x05 {
        EventType::NightStart
    } else if b == 0x07 {
        EventType::SleepOnset
    } else if b == 0x0E {
        EventType::HeadbandDocked
    } else if b == 0x0F {
        EventType::HeadbandUnDocked
    } else if b == 0x10 {
        EventType::AlarmOff
    } else if b == 0x11 {
        EventType::AlarmSnooze
    } else if b == 0x13 {
        EventType::AlarmPlay
    } else if b == 0x15 {
        EventType::NightEnd
    } else if b == 0x24 {
        EventType::NewHeadband
    } else {
        EventType::Invalid(b)
    }
}

impl From<u8> for EventType {
    fn from(b: u8) -> (r: EventType)
        ensures
            r == spec_event_type(b),
    {
        match b {
            0x05 => EventType::NightStart,
            0x07 => EventType::SleepOnset,
            0x0E => EventType::HeadbandDocked,
            0x0F => EventType::HeadbandUnDocked,
            0x10 => EventType::AlarmOff,
            0x11 => EventType::AlarmSnooze,
            0x13 => EventType::AlarmPlay,
            0x15 => EventType::NightEnd,
            0x24 => EventType::NewHeadband,
            _ => EventType::Invalid(b),
        }
    }
}

impl vstd::std_specs::convert::FromSpecImpl<u8> for EventType {
    open spec fn obeys_from_spec() -> bool {
        true
    }

    open spec fn from_spec(b: u8) -> EventType {
        spec_event_type(b)
    }
}

/// All the frequency bins.
#[derive(Clone, Copy, Debug, PartialEq, Eq, Structural)]
pub enum FrequencyBins {
    /// Delta (2-4 Hz).
    Delta,
    /// Theta (4-8 Hz).
    Theta,
    /// Alpha (8-13 Hz).
    Alpha,
    /// Beta mid range (13-18 Hz).
    BetaMid,
    /// Beta high (18-21 Hz).
    BetaHigh,
    /// Beta low (sleep spindles) (11-14 Hz).
    BetaLow,
    /// Gamma (30-50 Hz).
    Gamma,
    /// Invalid frequency bin, carrying the raw byte.
    Invalid(u8),
}

/// The frequency bin that a raw byte denotes.
pub open spec fn spec_frequency_bin(b: u8) -> FrequencyBins {
    if b == 0x00 {
        FrequencyBins::Delta
    } else if b == 0x01 {
        FrequencyBins::Theta
    } else if b == 0x02 {
        FrequencyBins::Alpha
    } else if b == 0x03 {
        FrequencyBins::BetaMid
    } else if b == 0x04 {
        FrequencyBins::BetaHigh
    } else if b == 0x05 {
        FrequencyBins::BetaLow
    } else if b == 0x06 {
        FrequencyBins::Gamma
    } else {
        FrequencyBins::Invalid(b)
    }
}

/// The frequency interval in Hz, (min, max), of a frequency bin.
///
/// An unrecognized bin has the empty interval (0, 0).
pub open spec fn spec_hz(bin: FrequencyBins) -> (u8, u8) {
    match bin {
        FrequencyBins::Delta => (2u8, 4u8),
        FrequencyBins::Theta => (4u8, 8u8),
        FrequencyBins::Alpha => (8u8, 13u8),
        FrequencyBins::BetaLow => (11u8, 14u8),
        FrequencyBins::BetaMid => (13u8, 18u8),
        FrequencyBins::BetaHigh => (18u8, 21u8),
        FrequencyBins::Gamma => (30u8, 50u8),
        FrequencyBins::Invalid(_) => (0u8, 0u8),
    }
}

impl FrequencyBins {
    /// Returns the interval of frequencies of this frequency bin (min, max).
    pub fn hz(&self) -> (r: (u8, u8))
        ensures
            r == spec_hz(*self),
    {
        match self {
            FrequencyBins::Delta => (2, 4),
            FrequencyBins::Theta => (4, 8),
            FrequencyBins::Alpha => (8, 13),
            FrequencyBins::BetaLow => (11, 14),
            FrequencyBins::BetaMid => (13, 18),
            FrequencyBins::BetaHigh => (18, 21),
            FrequencyBins::Gamma => (30, 50),
            FrequencyBins::Invalid(_) => (0, 0),
        }
    }

    /// Whether this bin is the delta band.
    pub fn is_delta(&self) -> (r: bool)
        ensures
            r == (*self matches FrequencyBins::Delta),
    {
        matches![self, FrequencyBins::Delta]
    }

    /// Whether this bin is the theta band.
    pub fn is_theta(&self) -> (r: bool)
        ensures
            r == (*self matches FrequencyBins::Theta),
    {
        matches![self, FrequencyBins::Theta]
    }

    /// Whether this bin is the alpha band.
    pub fn is_alpha(&self) -> (r: bool)
        ensures
            r == (*self matches FrequencyBins::Alpha),
    {
        matches![self, FrequencyBins::Alpha]
    }

    /// Whether this bin is the gamma band.
    pub fn is_gamma(&self) -> (r: bool)
        ensures
            r == (*self matches FrequencyBins::Gamma),
    {
        matches![self, FrequencyBins::Gamma]
    }

    /// Whether this bin is one of the three beta bands.
    pub fn is_betta(&self) -> (r: bool)
        ensures
            r == (*self matches FrequencyBins::BetaLow || *self
                matches FrequencyBins::BetaMid || *self matches FrequencyBins::BetaHigh),
    {
        matches![self, FrequencyBins::BetaLow | FrequencyBins::BetaMid | FrequencyBins::BetaHigh]
    }
}

impl From<u8> for FrequencyBins {
    fn from(b: u8) -> (r: FrequencyBins)
        ensures
            r == spec_frequency_bin(b),
    {
        match b {
            0x00 => FrequencyBins::Delta,
            0x01 => FrequencyBins::Theta,
            0x02 => FrequencyBins::Alpha,
            0x03 => FrequencyBins::BetaMid,
            0x04 => FrequencyBins::BetaHigh,
            0x05 => FrequencyBins::BetaLow,
            0x06 => FrequencyBins::Gamma,
            _ => FrequencyBins::Invalid(b),
        }
    }
}

impl vstd::std_specs::convert::FromSpecImpl<u8> for FrequencyBins {
    open spec fn obeys_from_spec() -> bool {
        true
    }

    open spec fn from_spec(b: u8) -> FrequencyBins {
        spec_frequency_bin(b)
    }
}

/// The sleep stages output by the base station.
#[derive(Clone, Copy, Debug, PartialEq, Eq, Structural)]
pub enum SleepStages {
    /// Sleep stage unsure.
    Undefined,
    /// Awake.
    Awake,
    /// Rapid eye movement (possibly dreaming).
    Rem,
    /// Light sleep.
    Light,
    /// Deep sleep.
    Deep,
    /// Invalid sleep stage, carrying the raw byte.
    Invalid(u8),
}

/// The sleep stage that a raw byte denotes.
pub open spec fn spec_sleep_stage(b: u8) -> SleepStages {
    if b == 0x00 {
        SleepStages::Undefined
    } else if b == 0x01 {
        SleepStages::Awake
    } else if b == 0x02 {
        SleepStages::Rem
    } else if b == 0x03 {
        SleepStages::Light
    } else if b == 0x04 {
        SleepStages::Deep
    } else {
        SleepStages::Invalid(b)
    }
}

impl From<u8> for SleepStages {
    fn from(b: u8) -> (r: SleepStages)
        ensures
            r == spec_sleep_stage(b),
    {
        match b {
            0x00 => SleepStages::Undefined,
            0x01 => SleepStages::Awake,
            0x02 => SleepStages::Rem,
            0x03 => SleepStages::Light,
            0x04 => SleepStages::Deep,
            _ => SleepStages::Invalid(b),
        }
    }
}

impl vstd::std_specs::convert::FromSpecImpl<u8> for SleepStages {
    open spec fn obeys_from_spec() -> bool {
        true
    }

    open spec fn from_spec(b: u8) -> SleepStages {
        spec_sleep_stage(b)
    }
}

} // verus!
