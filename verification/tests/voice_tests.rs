//! Tests for the voice: activity gating, volume clamping and smoothing.

use synth::voice::Voice;

#[test]
fn voice_starts_inactive_and_silent() {
    let mut v = Voice::new(220_000, 44_100);
    for _ in 0..100 {
        assert_eq!(v.tick(), 0);
    }
}

#[test]
fn voice_active_tick_scales_oscillator_output() {
    let mut v = Voice::new(77_000, 44_100);
    v.set_active(true);
    // First oscillator sample is 255; the default volume 29491 holds since
    // target == current, so the output is 255 * 29491 / 32768.
    assert_eq!(v.tick(), 229);
}

#[test]
fn voice_toggled_off_returns_exactly_zero() {
    let mut v = Voice::new(220_000, 44_100);
    v.set_active(true);
    v.set_volume(32768);
    for _ in 0..10 {
        let s: i32 = v.tick();
        assert!(s != 0);
    }
    v.set_active(false);
    for _ in 0..1000 {
        assert_eq!(v.tick(), 0);
    }
}

#[test]
fn voice_phase_advances_while_inactive() {
    // Two silent ticks still advance the oscillator, so reactivation
    // resumes at the third phase position instead of popping back to the
    // start of the waveform.
    let mut v = Voice::new(220_000, 44_100);
    assert_eq!(v.tick(), 0);
    assert_eq!(v.tick(), 0);
    v.set_active(true);
    // Third oscillator sample is 3727, scaled by the default volume.
    assert_eq!(v.tick(), 3354);
}

#[test]
fn voice_volume_clamped_to_full_scale() {
    let mut v = Voice::new(220_000, 44_100);
    v.set_volume(65535);
    v.set_active(true);
    for _ in 0..40_000 {
        v.tick();
    }
    // The smoothed volume converged onto the clamped target.
    assert_eq!(v.current_volume(), 32768);
}

#[test]
fn voice_volume_converges_monotonically() {
    // Drop the target to zero on an active voice: the smoothed volume must
    // fall monotonically and reach the target exactly within a bounded
    // number of samples.
    let mut v = Voice::new(220_000, 44_100);
    v.set_active(true);
    v.set_volume(0);
    let mut prev: u16 = v.current_volume();
    assert_eq!(prev, 29491);
    for _ in 0..1000 {
        v.tick();
        let cur: u16 = v.current_volume();
        assert!(cur <= prev);
        prev = cur;
    }
    assert_eq!(v.current_volume(), 0);
    assert_eq!(v.tick(), 0);
}

#[test]
fn voice_smoothing_untouched_by_set_volume() {
    // set_volume moves only the target; the smoothed value moves in tick.
    let mut v = Voice::new(220_000, 44_100);
    v.set_volume(0);
    assert_eq!(v.current_volume(), 29491);
    v.set_active(true);
    v.tick();
    assert_eq!(v.current_volume(), 29196);
}
