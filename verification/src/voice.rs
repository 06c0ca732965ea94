//! Voice module: instrument instance with oscillator, volume, and active
//! state.
//!
//! A voice wraps an oscillator with a user-set target volume, a smoothed
//! current volume that chases the target one step per sample, and an on/off
//! flag. While the voice is off its output is forced to zero but the
//! oscillator phase still advances, so switching it back on resumes the
//! waveform without a phase discontinuity.

use vstd::prelude::*;

use crate::audio_util::scale_q15;
use crate::audio_util::scale_sample;
use crate::config::DEFAULT_VOICE_VOLUME;
use crate::config::VOLUME_SMOOTHING_STEP;
use crate::oscillator::Oscillator;
use crate::oscillator::OscillatorView;
use crate::oscillator::increment_for;
use crate::oscillator::osc_output;
use crate::oscillator::osc_step;
use crate::oscillator::osc_wf;
use crate::oscillator::wavetable_contents;

verus! {

/// Mathematical image of a voice.
pub ghost struct VoiceView {
    pub osc: OscillatorView,
    pub volume_target: int,
    pub volume_current: int,
    pub active: bool,
}

/// Invariant of a view produced by a well-built voice: the oscillator is
/// well formed and both volume levels are Q15 values in [0, 32768].
pub open spec fn voice_wf(v: VoiceView) -> bool {
    &&& osc_wf(v.osc)
    &&& 0 <= v.volume_target <= 32768
    &&& 0 <= v.volume_current <= 32768
}

/// One step of the volume smoothing filter: close about 1/100th of the gap
/// between the current and the target volume, but always at least one Q15
/// step, so the current volume reaches the target exactly instead of
/// stalling just below it.
pub open spec fn smoothed_volume(cur: int, tgt: int) -> int {
    if cur < tgt {
        let step = ((tgt - cur) * VOLUME_SMOOTHING_STEP as int) / 32768;
        cur + (if step < 1 { 1 } else { step })
    } else if cur > tgt {
        let step = ((cur - tgt) * VOLUME_SMOOTHING_STEP as int) / 32768;
        cur - (if step < 1 { 1 } else { step })
    } else {
        cur
    }
}

/// The voice state after one tick: the oscillator phase always advances
/// (phase continuity across mute/unmute), the smoothing filter advances only
/// while the voice is active.
pub open spec fn voice_step(v: VoiceView) -> VoiceView {
    VoiceView {
        osc: osc_step(v.osc),
        volume_current: if v.active {
            smoothed_volume(v.volume_current, v.volume_target)
        } else {
            v.volume_current
        },
        ..v
    }
}

/// The sample a tick returns: zero while inactive, otherwise the oscillator
/// output scaled by the freshly smoothed volume.
pub open spec fn voice_output(v: VoiceView) -> int {
    if v.active {
        scale_q15(osc_output(v.osc), smoothed_volume(v.volume_current, v.volume_target))
    } else {
        0
    }
}

/// The voice state after `n` ticks with no intervening control changes.
pub open spec fn voice_ticks(v: VoiceView, n: nat) -> VoiceView
    decreases n,
{
    if n == 0 {
        v
    } else {
        voice_step(voice_ticks(v, (n - 1) as nat))
    }
}

/// Distance between the smoothed volume and its target.
pub open spec fn volume_error(v: VoiceView) -> int {
    if v.volume_target >= v.volume_current {
        v.volume_target - v.volume_current
    } else {
        v.volume_current - v.volume_target
    }
}

/// One smoothing step moves the current volume strictly toward the target,
/// never past it, and stays inside the Q15 range.
pub proof fn lemma_smoothed_volume_progress(cur: int, tgt: int)
    requires
        0 <= cur <= 32768,
        0 <= tgt <= 32768,
    ensures
        cur == tgt ==> smoothed_volume(cur, tgt) == tgt,
        cur < tgt ==> cur < smoothed_volume(cur, tgt) <= tgt,
        cur > tgt ==> tgt <= smoothed_volume(cur, tgt) < cur,
{
    if cur < tgt {
        let d = tgt - cur;
        assert(d * 328 <= d * 32768) by (nonlinear_arith)
            requires d >= 0;
        assert((d * 328) / 32768 <= (d * 32768) / 32768) by (nonlinear_arith)
            requires d * 328 <= d * 32768, d * 328 >= 0;
        assert((d * 32768) / 32768 == d) by (nonlinear_arith);
        assert(d * 328 >= 0) by (nonlinear_arith)
            requires d >= 0;
    } else if cur > tgt {
        let d = cur - tgt;
        assert(d * 328 <= d * 32768) by (nonlinear_arith)
            requires d >= 0;
        assert((d * 328) / 32768 <= (d * 32768) / 32768) by (nonlinear_arith)
            requires d * 328 <= d * 32768, d * 328 >= 0;
        assert((d * 32768) / 32768 == d) by (nonlinear_arith);
        assert(d * 328 >= 0) by (nonlinear_arith)
            requires d >= 0;
    }
}

/// One tick preserves well-formedness and leaves the active flag and the
/// volume target alone: ticking only moves the phase and the smoothed
/// volume.
pub proof fn lemma_voice_step_wf(v: VoiceView)
    requires
        voice_wf(v),
    ensures
        voice_wf(voice_step(v)),
        voice_step(v).active == v.active,
        voice_step(v).volume_target == v.volume_target,
{
    lemma_smoothed_volume_progress(v.volume_current, v.volume_target);
}

/// Any number of ticks preserves well-formedness, the active flag and the
/// volume target.
pub proof fn lemma_voice_ticks_wf(v: VoiceView, n: nat)
    requires
        voice_wf(v),
    ensures
        voice_wf(voice_ticks(v, n)),
        voice_ticks(v, n).active == v.active,
        voice_ticks(v, n).volume_target == v.volume_target,
    decreases n,
{
    if n > 0 {
        lemma_voice_ticks_wf(v, (n - 1) as nat);
        lemma_voice_step_wf(voice_ticks(v, (n - 1) as nat));
    }
}

/// Law: once a voice is off, every subsequent tick returns exactly zero,
/// regardless of its frequency and volume state, and the voice stays off.
pub proof fn lemma_inactive_voice_silent(v: VoiceView, n: nat)
    requires
        !v.active,
    ensures
        !voice_ticks(v, n).active,
        forall|k: nat| k < n ==> voice_output(voice_ticks(v, k)) == 0,
    decreases n,
{
    if n > 0 {
        lemma_inactive_voice_silent(v, (n - 1) as nat);
        assert forall|k: nat| k < n implies voice_output(voice_ticks(v, k)) == 0 by {
            lemma_inactive_voice_silent(v, k);
        }
    }
}

/// Law: while a voice stays active with a fixed target volume, the smoothed
/// volume approaches the target monotonically, never overshoots, loses at
/// least one Q15 step of error per tick, and therefore equals the target
/// after at most `volume_error(v)` ticks.
pub proof fn lemma_volume_converges(v: VoiceView, n: nat)
    requires
        voice_wf(v),
        v.active,
    ensures
        forall|k: nat| k < n ==> volume_error(voice_ticks(v, (k + 1) as nat)) <= volume_error(
            #[trigger] voice_ticks(v, k),
        ),
        volume_error(voice_ticks(v, n)) <= (if volume_error(v) - n >= 0 {
            volume_error(v) - n
        } else {
            0
        }),
        n >= volume_error(v) ==> voice_ticks(v, n).volume_current == v.volume_target,
    decreases n,
{
    if n > 0 {
        lemma_volume_converges(v, (n - 1) as nat);
        let u = voice_ticks(v, (n - 1) as nat);
        lemma_voice_ticks_wf(v, (n - 1) as nat);
        lemma_smoothed_volume_progress(u.volume_current, u.volume_target);
        assert forall|k: nat| k < n implies volume_error(voice_ticks(v, (k + 1) as nat))
            <= volume_error(#[trigger] voice_ticks(v, k)) by {
            lemma_voice_ticks_wf(v, k);
            lemma_smoothed_volume_progress(
                voice_ticks(v, k).volume_current,
                voice_ticks(v, k).volume_target,
            );
            assert(voice_ticks(v, (k + 1) as nat) == voice_step(voice_ticks(v, k)));
        }
    }
}

/// A single voice in the synth: an oscillator with volume control and an
/// active flag.
pub struct Voice {
    /// Wavetable oscillator for audio generation.
    osc: Oscillator,
    /// Target Q15 volume set by the user (0 = silent, 32768 = full scale).
    volume_target: u16,
    /// Smoothed Q15 volume chasing the target; updated each active tick to
    /// eliminate zipper noise.
    volume_current: u16,
    /// Whether the voice is active (on) or inactive (off).
    /// When inactive, `tick` returns zero regardless of volume.
    pub active: bool,
}

impl View for Voice {
    type V = VoiceView;

    closed spec fn view(&self) -> VoiceView {
        VoiceView {
            osc: self.osc@,
            volume_target: self.volume_target as int,
            volume_current: self.volume_current as int,
            active: self.active,
        }
    }
}

impl Voice {
    /// Create a voice at the given frequency (millihertz, clamped to at
    /// least 1): both volume levels at the configured default, inactive,
    /// phase zero.
    pub fn new(freq_mhz: u32, sample_rate: u32) -> (v: Voice)
        requires
            sample_rate >= 1,
        ensures
            voice_wf(v@),
            v@.osc.phase == 0,
            v@.osc.sample_rate == sample_rate as int,
            v@.osc.phase_increment == increment_for(
                if freq_mhz as int >= 1 { freq_mhz as int } else { 1 },
                sample_rate as int,
            ),
            v@.osc.wavetable == wavetable_contents(),
            v@.volume_target == DEFAULT_VOICE_VOLUME as int,
            v@.volume_current == DEFAULT_VOICE_VOLUME as int,
            !v@.active,
    {
        Voice {
            osc: Oscillator::new(freq_mhz, sample_rate),
            volume_target: DEFAULT_VOICE_VOLUME,
            volume_current: DEFAULT_VOICE_VOLUME,
            active: false,
        }
    }

    /// Set the voice frequency in millihertz (clamped to at least 1);
    /// forwards to the oscillator, which keeps its phase.
    pub fn set_frequency(&mut self, freq_mhz: u32)
        requires
            voice_wf(old(self)@),
        ensures
            voice_wf(final(self)@),
            final(self)@ == (VoiceView {
                osc: OscillatorView {
                    phase_increment: increment_for(
                        if freq_mhz as int >= 1 { freq_mhz as int } else { 1 },
                        old(self)@.osc.sample_rate,
                    ),
                    ..old(self)@.osc
                },
                ..old(self)@
            }),
    {
        self.osc.set_frequency(freq_mhz);
    }

    /// Set the target volume, clamped to the Q15 range [0, 32768]. The
    /// current volume is untouched: smoothing happens only in `tick`.
    pub fn set_volume(&mut self, vol: u16)
        requires
            voice_wf(old(self)@),
        ensures
            voice_wf(final(self)@),
            final(self)@ == (VoiceView {
                volume_target: if vol as int <= 32768 { vol as int } else { 32768 },
                ..old(self)@
            }),
    {
        self.volume_target = if vol <= 32768 {
            vol
        } else {
            32768
        };
    }

    /// The current smoothed Q15 volume (the value the smoothing filter has
    /// reached, not the target).
    pub fn current_volume(&self) -> (v: u16)
        ensures
            v as int == self@.volume_current,
    {
        self.volume_current
    }

    /// Whether the voice is currently active.
    pub fn is_active(&self) -> (b: bool)
        ensures
            b == self@.active,
    {
        self.active
    }

    /// Set the active state without touching frequency or volume state.
    pub fn set_active(&mut self, active: bool)
        requires
            voice_wf(old(self)@),
        ensures
            voice_wf(final(self)@),
            final(self)@ == (VoiceView { active: active, ..old(self)@ }),
    {
        self.active = active;
    }

    /// Generate the next sample. While inactive this returns zero and leaves
    /// the smoothing filter alone, but still advances the oscillator phase;
    /// while active it advances the smoothing filter one step and returns
    /// the oscillator output scaled by the smoothed volume.
    pub fn tick(&mut self) -> (s: i32)
        requires
            voice_wf(old(self)@),
        ensures
            voice_wf(final(self)@),
            final(self)@ == voice_step(old(self)@),
            s as int == voice_output(old(self)@),
            -32767 <= s <= 32767,
            !old(self)@.active ==> s == 0,
    {
        if self.active {
            let vt: u16 = self.volume_target;
            let vc: u16 = self.volume_current;
            proof {
                lemma_smoothed_volume_progress(vc as int, vt as int);
            }
            let new_vc: u16 = if vc < vt {
                let step: u32 = ((vt - vc) as u32 * VOLUME_SMOOTHING_STEP as u32) / 32768;
                let step: u32 = if step < 1 {
                    1
                } else {
                    step
                };
                vc + step as u16
            } else if vc > vt {
                let step: u32 = ((vc - vt) as u32 * VOLUME_SMOOTHING_STEP as u32) / 32768;
                let step: u32 = if step < 1 {
                    1
                } else {
                    step
                };
                vc - step as u16
            } else {
                vc
            };
            self.volume_current = new_vc;
            let raw: i16 = self.osc.tick();
            scale_sample(raw as i32, new_vc)
        } else {
            let _ = self.osc.tick();
            0
        }
    }
}

} // verus!
