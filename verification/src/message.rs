//! Message types for communication between control tasks and the audio task.

use vstd::prelude::*;

verus! {

/// Messages sent from control inputs (buttons, pots) to the audio engine.
/// Values travel by copy; the engine consumes each message exactly once.
#[derive(Debug, Clone, Copy, PartialEq, Eq, Structural)]
pub enum Message {
    /// Select which voice the parameter messages control.
    SelectVoice(u8),
    /// Toggle a voice on/off.
    /// The active state changes, but volume and frequency are retained.
    ToggleVoice(u8),
    /// Set the frequency of the currently selected voice, in millihertz.
    /// Only applies while a voice is selected.
    SetFrequency(u32),
    /// Set the Q15 volume of the currently selected voice (clamped to
    /// [0, 32768]). Only applies while a voice is selected.
    SetVolume(u16),
}

} // verus!
