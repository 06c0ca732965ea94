//! Tests for the potentiometer chain: filtering, normalization, deadband,
//! and parameter mapping.

use synth::controls::PotType;
use synth::controls::Potentiometer;
use synth::controls::map_freq;
use synth::controls::map_vol;
use synth::controls::pot_to_frequency;
use synth::controls::pot_to_volume;
use synth::message::Message;

#[test]
fn pot_read_filters_and_normalizes() {
    // The filter starts at the calibrated midpoint (raw 1578); an average
    // of 1000 pulls it down through the EMA, normalized against the
    // calibrated bounds 0..3156.
    let mut p = Potentiometer::new(PotType::Frequency);
    let samples: Vec<u16> = vec![1000u16; 9];
    assert_eq!(p.read(&samples), 13975);
    assert_eq!(p.read(&samples), 12542);
}

#[test]
fn pot_read_handles_uneven_samples() {
    // Multisampling averages (truncating): 9 samples summing to 9008 give
    // an average of 1000, the same as a flat batch.
    let mut p = Potentiometer::new(PotType::Frequency);
    let samples: Vec<u16> = vec![992u16, 1008, 1000, 995, 1005, 1000, 1004, 1001, 1003];
    assert_eq!(p.read(&samples), 13975);
}

#[test]
fn pot_deadband_suppresses_consecutive_noise() {
    // At the calibrated midpoint the filter is a fixed point: readings of
    // 1578 keep the normalized value at exactly half scale. The first
    // reading differs from the never-sent reference and goes out; the next
    // two are within the deadband of the sent value and are suppressed.
    let mut p = Potentiometer::new(PotType::Frequency);
    let samples: Vec<u16> = vec![1578u16; 9];
    let first: Option<Message> = p.process_reading(&samples);
    assert!(matches!(first, Some(Message::SetFrequency(527_000))));
    assert!(p.process_reading(&samples).is_none());
    assert!(p.process_reading(&samples).is_none());
}

#[test]
fn pot_moving_reading_sends_again() {
    let mut p = Potentiometer::new(PotType::Volume);
    let mid: Vec<u16> = vec![1578u16; 9];
    assert!(matches!(p.process_reading(&mid), Some(Message::SetVolume(16384))));
    // A strong move away from the sent value crosses the deadband.
    let high: Vec<u16> = vec![3156u16; 9];
    assert!(p.process_reading(&high).is_some());
}

#[test]
fn frequency_mapping_endpoints() {
    assert_eq!(pot_to_frequency(0), 30_000);
    assert_eq!(pot_to_frequency(16384), 527_000);
    assert_eq!(pot_to_frequency(32768), 1_024_000);
    // Out-of-range positions clamp to the top of the range.
    assert_eq!(pot_to_frequency(65535), 1_024_000);
}

#[test]
fn volume_mapping_is_clamped_identity() {
    assert_eq!(pot_to_volume(0), 0);
    assert_eq!(pot_to_volume(1234), 1234);
    assert_eq!(pot_to_volume(32768), 32768);
    assert_eq!(pot_to_volume(40000), 32768);
}

#[test]
fn mappers_wrap_into_messages() {
    assert!(matches!(map_freq(0), Message::SetFrequency(30_000)));
    assert!(matches!(map_freq(32768), Message::SetFrequency(1_024_000)));
    assert!(matches!(map_vol(16384), Message::SetVolume(16384)));
    assert!(matches!(map_vol(65535), Message::SetVolume(32768)));
}
