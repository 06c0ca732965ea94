//! A polyphonic wavetable synthesizer core.
//!
//! The engine mixes a fixed set of independently controlled voices into an
//! interleaved stereo PCM byte stream, driven by control messages that arrive
//! through a bounded FIFO queue. All audio arithmetic is integer fixed point:
//! amplitudes and volumes are Q15 values (32768 represents 1.0), frequencies
//! are millihertz, and the oscillator phase is a 10.16 fixed-point index into
//! a 1024-entry wavetable.

pub mod audio_util;
pub mod config;
pub mod controls;
pub mod engine;
pub mod message;
pub mod oscillator;
pub mod queue;
pub mod voice;
