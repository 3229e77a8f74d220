use rawzeo::DataType;
use rawzeo::EventType;
use rawzeo::FrequencyBins;
use rawzeo::SleepStages;

#[test]
fn data_type_codes() {
    assert_eq!(DataType::from(0x00), DataType::Event);
    assert_eq!(DataType::from(0x02), DataType::SliceEnd);
    assert_eq!(DataType::from(0x03), DataType::Version);
    assert_eq!(DataType::from(0x80), DataType::Waveform);
    assert_eq!(DataType::from(0x83), DataType::FrequencyBins);
    assert_eq!(DataType::from(0x84), DataType::Sqi);
    assert_eq!(DataType::from(0x8A), DataType::ZeoTimestamp);
    assert_eq!(DataType::from(0x97), DataType::Impedance);
    assert_eq!(DataType::from(0x9C), DataType::BadSignal);
    assert_eq!(DataType::from(0x9D), DataType::SleepStage);
    assert_eq!(DataType::from(0x01), DataType::Invalid(0x01));
    assert_eq!(DataType::from(0xFF), DataType::Invalid(0xFF));
}

#[test]
fn event_type_codes() {
    assert_eq!(EventType::from(0x05), EventType::NightStart);
    assert_eq!(EventType::from(0x07), EventType::SleepOnset);
    assert_eq!(EventType::from(0x0E), EventType::HeadbandDocked);
    assert_eq!(EventType::from(0x0F), EventType::HeadbandUnDocked);
    assert_eq!(EventType::from(0x10), EventType::AlarmOff);
    assert_eq!(EventType::from(0x11), EventType::AlarmSnooze);
    assert_eq!(EventType::from(0x13), EventType::AlarmPlay);
    assert_eq!(EventType::from(0x15), EventType::NightEnd);
    assert_eq!(EventType::from(0x24), EventType::NewHeadband);
    assert_eq!(EventType::from(0x8F), EventType::Invalid(0x8F));
    assert_eq!(EventType::from(0x99), EventType::Invalid(0x99));
}

#[test]
fn frequency_bin_codes() {
    assert_eq!(FrequencyBins::from(0x00), FrequencyBins::Delta);
    assert_eq!(FrequencyBins::from(0x01), FrequencyBins::Theta);
    assert_eq!(FrequencyBins::from(0x02), FrequencyBins::Alpha);
    assert_eq!(FrequencyBins::from(0x03), FrequencyBins::BetaMid);
    assert_eq!(FrequencyBins::from(0x04), FrequencyBins::BetaHigh);
    assert_eq!(FrequencyBins::from(0x05), FrequencyBins::BetaLow);
    assert_eq!(FrequencyBins::from(0x06), FrequencyBins::Gamma);
    assert_eq!(FrequencyBins::from(0x07), FrequencyBins::Invalid(0x07));
}

#[test]
fn frequency_bin_intervals() {
    assert_eq!(FrequencyBins::Delta.hz(), (2, 4));
    assert_eq!(FrequencyBins::Theta.hz(), (4, 8));
    assert_eq!(FrequencyBins::Alpha.hz(), (8, 13));
    assert_eq!(FrequencyBins::BetaLow.hz(), (11, 14));
    assert_eq!(FrequencyBins::BetaMid.hz(), (13, 18));
    assert_eq!(FrequencyBins::BetaHigh.hz(), (18, 21));
    assert_eq!(FrequencyBins::Gamma.hz(), (30, 50));
    assert_eq!(FrequencyBins::Invalid(0x42).hz(), (0, 0));
}

#[test]
fn frequency_bin_predicates() {
    assert!(FrequencyBins::Delta.is_delta());
    assert!(!FrequencyBins::Theta.is_delta());
    assert!(FrequencyBins::Theta.is_theta());
    assert!(FrequencyBins::Alpha.is_alpha());
    assert!(FrequencyBins::Gamma.is_gamma());
    assert!(FrequencyBins::BetaLow.is_betta());
    assert!(FrequencyBins::BetaMid.is_betta());
    assert!(FrequencyBins::BetaHigh.is_betta());
    assert!(!FrequencyBins::Delta.is_betta());
    assert!(!FrequencyBins::Invalid(0x03).is_betta());
}

#[test]
fn sleep_stage_codes() {
    assert_eq!(SleepStages::from(0x00), SleepStages::Undefined);
    assert_eq!(SleepStages::from(0x01), SleepStages::Awake);
    assert_eq!(SleepStages::from(0x02), SleepStages::Rem);
    assert_eq!(SleepStages::from(0x03), SleepStages::Light);
    assert_eq!(SleepStages::from(0x04), SleepStages::Deep);
    assert_eq!(SleepStages::from(0x05), SleepStages::Invalid(0x05));
}
