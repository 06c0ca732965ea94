//! Centralized configuration constants for the synth.
//! All magic numbers live here to keep the components consistent.
//!
//! Fixed-point conventions used throughout the crate:
//! - Q15 levels: 32768 represents 1.0 (full scale), so a level lies in
//!   [0, 32768] and a signed sample in [-32767, 32767].
//! - Frequencies are integers in millihertz.
//! - Oscillator phase is a 10.16 fixed-point wavetable position: the top ten
//!   bits select one of the 1024 table entries, the low sixteen bits are the
//!   fractional position between entries.

use vstd::prelude::*;

verus! {

// === Synth Engine ===

/// Number of simultaneously mixable voices.
pub const VOICE_COUNT: usize = 3;

/// Audio sample rate in Hz.
///
/// 44.1 kHz keeps compatibility with consumer audio equipment.
pub const SAMPLE_RATE: u32 = 44_100;

/// Q15 value that represents a level of exactly 1.0.
pub const Q15_ONE: u16 = 32768;

/// Largest magnitude of a Q15 audio sample (one step below full scale).
pub const SAMPLE_MAX: i16 = 32767;

/// Q15 fraction of the remaining volume gap that is closed on every sample
/// (about 0.01, i.e. a one-pole smoothing coefficient of about 0.99).
/// Smoothing per sample eliminates zipper noise from abrupt volume changes.
pub const VOLUME_SMOOTHING_STEP: u16 = 328;

// === Voice Defaults ===

/// Starting frequency for all voices on initialization, in millihertz (77 Hz).
pub const STARTING_FREQUENCY_MHZ: u32 = 77_000;

/// Default Q15 volume level for voices (about 0.9).
pub const DEFAULT_VOICE_VOLUME: u16 = 29491;

// === Output Level Management ===

/// Master output gain applied after voice mixing, as a Q15 level (about 0.85).
/// Provides headroom even when all voices are at max volume.
pub const MASTER_GAIN: u16 = 27853;

// === Wavetable ===

/// Wavetable size (must remain a power of two for fast wrapping).
pub const WAVETABLE_SIZE: usize = 1024;

/// One whole wavetable step in 10.16 fixed-point phase units.
pub const PHASE_ONE: u32 = 65536;

/// The phase accumulator wraps modulo this value (WAVETABLE_SIZE * PHASE_ONE).
pub const PHASE_MODULUS: u32 = 67108864;

/// Mask for rapid phase wrapping (PHASE_MODULUS - 1, valid because the
/// modulus is a power of two).
pub const PHASE_MASK: u32 = 67108863;

// === DMA & Streaming ===

/// Circular audio output buffer size in bytes.
/// Divisible by 4 (stereo `i16` frame size) to keep channels aligned.
pub const DMA_BUFFER_SIZE: usize = 2044;

// === Messaging ===

/// Capacity of the control message queue.
pub const MESSAGE_QUEUE_SIZE: usize = 8;

// === Control & Input ===

/// ADC polling interval in milliseconds.
pub const ADC_POLL_INTERVAL_MS: u64 = 20;

/// Number of ADC samples to average per reading (multisampling) for noise
/// reduction.
pub const ADC_MULTISAMPLING_COUNT: usize = 9;

/// EMA filter alpha coefficient for ADC smoothing, as a Q15 level (about 0.6).
/// Higher values add smoothing; lower values respond faster to changes.
pub const ADC_EMA_ALPHA: u16 = 19661;

/// Potentiometer minimum raw reading (calibrated millivolts).
pub const POT_MIN: u16 = 0;

/// Potentiometer maximum raw reading (calibrated millivolts).
pub const POT_MAX: u16 = 3156;

/// Normalized Q15 threshold before a potentiometer change counts as
/// meaningful (about 0.001); smaller changes are treated as noise.
pub const POT_CHANGE_THRESHOLD: u16 = 33;

/// Minimum frequency target for potentiometer control, in millihertz (30 Hz).
pub const FREQUENCY_MIN_MHZ: u32 = 30_000;

/// Maximum frequency target for potentiometer control, in millihertz (1024 Hz).
pub const FREQUENCY_MAX_MHZ: u32 = 1_024_000;

} // verus!
