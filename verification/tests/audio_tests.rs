//! Tests for the PCM codec and the oscillator.

use synth::audio_util::sample_to_i16_le;
use synth::oscillator::Oscillator;

#[test]
fn codec_zero() {
    assert_eq!(sample_to_i16_le(0), [0u8, 0u8]);
}

#[test]
fn codec_full_scale_positive() {
    assert_eq!(sample_to_i16_le(32767), [0xFFu8, 0x7Fu8]);
}

#[test]
fn codec_full_scale_negative() {
    assert_eq!(sample_to_i16_le(-32767), [0x01u8, 0x80u8]);
}

#[test]
fn codec_small_values() {
    assert_eq!(sample_to_i16_le(1), [1u8, 0u8]);
    assert_eq!(sample_to_i16_le(-1), [0xFFu8, 0xFFu8]);
    assert_eq!(sample_to_i16_le(969), [201u8, 3u8]);
}

#[test]
fn codec_clamps_out_of_range() {
    // Values past full scale clamp instead of wrapping.
    assert_eq!(sample_to_i16_le(40000), [0xFFu8, 0x7Fu8]);
    assert_eq!(sample_to_i16_le(-40000), [0x01u8, 0x80u8]);
    assert_eq!(sample_to_i16_le(i32::MAX), [0xFFu8, 0x7Fu8]);
    assert_eq!(sample_to_i16_le(i32::MIN), [0x01u8, 0x80u8]);
}

#[test]
fn oscillator_tick_sequence_220() {
    // 220 Hz at 44.1 kHz: phase increment 334783, so the first three ticks
    // land on table indices 5, 10 and 15.
    let mut o = Oscillator::new(220_000, 44_100);
    assert_eq!(o.tick(), 1267);
    assert_eq!(o.tick(), 2509);
    assert_eq!(o.tick(), 3727);
}

#[test]
fn oscillator_tick_sequence_77() {
    let mut o = Oscillator::new(77_000, 44_100);
    assert_eq!(o.tick(), 255);
    assert_eq!(o.tick(), 763);
    assert_eq!(o.tick(), 1267);
}

#[test]
fn oscillator_set_frequency_retunes_without_phase_reset() {
    let mut o = Oscillator::new(77_000, 44_100);
    o.set_frequency(220_000);
    // From phase zero the retuned oscillator behaves as one built at 220 Hz.
    assert_eq!(o.tick(), 1267);
}

#[test]
fn oscillator_output_in_range_over_full_cycles() {
    // One full cycle at 220 Hz takes about 200 samples; run far more, and
    // also exercise awkward frequency/rate pairs.
    let cases: [(u32, u32); 5] =
        [(220_000, 44_100), (30_000, 44_100), (1_024_000, 44_100), (1, 44_100), (4_000_000_000, 8_000)];
    for &(f, r) in cases.iter() {
        let mut o = Oscillator::new(f, r);
        for _ in 0..4096 {
            let s: i16 = o.tick();
            assert!(-32767 <= s && s <= 32767);
        }
    }
}

#[test]
fn oscillator_zero_frequency_clamped() {
    // A zero frequency is clamped to one millihertz rather than freezing
    // construction; the phase crawls, so early samples sit at the table
    // origin.
    let mut o = Oscillator::new(0, 44_100);
    assert_eq!(o.tick(), 0);
}
