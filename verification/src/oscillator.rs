//! Oscillator module: phase-accumulator wavetable generator.
//!
//! The oscillator owns a 1024-entry wavetable holding one cycle of a
//! parabolic sine approximation in Q15 amplitude. Its phase is a 10.16
//! fixed-point position into the table; every tick advances the phase by a
//! frequency-derived increment, wraps it with a bitwise mask (the table size
//! is a power of two, so no division runs on the hot path) and returns the
//! entry under the integer part of the phase.

use vstd::prelude::*;

use crate::config::PHASE_MASK;
use crate::config::PHASE_MODULUS;
use crate::config::PHASE_ONE;
use crate::config::WAVETABLE_SIZE;

verus! {

/// Mathematical image of an oscillator: the wavetable contents and the three
/// scalar registers, all as unbounded integers.
pub ghost struct OscillatorView {
    pub wavetable: Seq<int>,
    pub phase: int,
    pub phase_increment: int,
    pub sample_rate: int,
}

/// Amplitude of wavetable entry `i`: one cycle of the parabolic sine
/// approximation sin(x) ~= 4*x*(pi - x)/pi^2, scaled to Q15. The first half
/// of the table is the positive arch, the second half its mirror image.
pub open spec fn wavetable_sample(i: int) -> int {
    if i < 512 {
        (32767 * (i * (512 - i))) / 65536
    } else {
        -((32767 * ((i - 512) * (1024 - i))) / 65536)
    }
}

/// The full wavetable as a sequence.
pub open spec fn wavetable_contents() -> Seq<int> {
    Seq::new(WAVETABLE_SIZE as nat, |i: int| wavetable_sample(i))
}

/// Every wavetable entry is a legal Q15 sample.
pub proof fn lemma_wavetable_sample_bounded(i: int)
    requires
        0 <= i < 1024,
    ensures
        -32767 <= wavetable_sample(i) <= 32767,
{
    if i < 512 {
        assert(0 <= i * (512 - i) <= 65536) by (nonlinear_arith)
            requires 0 <= i < 512;
        assert(0 <= 32767 * (i * (512 - i)) <= 32767 * 65536) by (nonlinear_arith)
            requires 0 <= i * (512 - i) <= 65536;
    } else {
        let j = i - 512;
        assert(0 <= j * (512 - j) <= 65536) by (nonlinear_arith)
            requires 0 <= j < 512;
        assert(0 <= 32767 * (j * (512 - j)) <= 32767 * 65536) by (nonlinear_arith)
            requires 0 <= j * (512 - j) <= 65536;
        assert((i - 512) * (1024 - i) == j * (512 - j));
    }
}

/// Phase increment, in 10.16 phase units per sample, that makes one table
/// cycle take `sample_rate / frequency` samples: frequency * table size /
/// sample rate, reduced modulo one cycle (increments past one whole cycle
/// alias anyway).
pub open spec fn increment_for(freq_mhz: int, sample_rate: int) -> int
    recommends
        sample_rate >= 1,
{
    ((freq_mhz * PHASE_MODULUS as int) / (1000 * sample_rate)) % PHASE_MODULUS as int
}

/// The phase after one tick.
pub open spec fn next_phase(o: OscillatorView) -> int {
    (o.phase + o.phase_increment) % PHASE_MODULUS as int
}

/// The oscillator state after one tick: only the phase moves.
pub open spec fn osc_step(o: OscillatorView) -> OscillatorView {
    OscillatorView { phase: next_phase(o), ..o }
}

/// The sample a tick returns: the entry under the integer part of the phase
/// after advancing.
pub open spec fn osc_output(o: OscillatorView) -> int {
    o.wavetable[next_phase(o) / PHASE_ONE as int]
}

/// The oscillator state after `n` ticks.
pub open spec fn osc_ticks(o: OscillatorView, n: nat) -> OscillatorView
    decreases n,
{
    if n == 0 {
        o
    } else {
        osc_step(osc_ticks(o, (n - 1) as nat))
    }
}

/// A well-formed oscillator's next output is a legal Q15 sample.
pub proof fn lemma_osc_output_bounded(o: OscillatorView)
    requires
        osc_wf(o),
    ensures
        -32767 <= osc_output(o) <= 32767,
{
    let idx = next_phase(o) / 65536;
    assert(0 <= idx < 1024);
    lemma_wavetable_sample_bounded(idx);
}

/// Law: whatever the frequency and sample rate, a well-formed oscillator
/// stays well formed and its output stays within the Q15 sample range over
/// any number of ticks — in particular over at least one full table cycle.
pub proof fn lemma_osc_output_in_range(o: OscillatorView, n: nat)
    requires
        osc_wf(o),
    ensures
        osc_wf(osc_ticks(o, n)),
        forall|k: nat| k < n ==> -32767 <= osc_output(#[trigger] osc_ticks(o, k)) <= 32767,
    decreases n,
{
    if n > 0 {
        lemma_osc_output_in_range(o, (n - 1) as nat);
        assert forall|k: nat| k < n implies -32767 <= osc_output(#[trigger] osc_ticks(o, k))
            <= 32767 by {
            lemma_osc_output_in_range(o, k);
            lemma_osc_output_bounded(osc_ticks(o, k));
        }
    }
}

/// Phase-accumulator wavetable generator; produces one Q15 sample per call.
pub struct Oscillator {
    /// One waveform cycle in Q15 amplitude, 1024 entries (read-only after
    /// construction).
    wavetable: Vec<i16>,
    /// Position into the wavetable in 10.16 fixed point; wraps modulo
    /// PHASE_MODULUS every tick.
    phase: u32,
    /// Phase advance per tick, derived from the frequency; recomputed
    /// whenever the frequency changes, never drifts independently of it.
    phase_increment: u32,
    /// Sample rate in Hz, fixed for the oscillator's lifetime.
    sample_rate: u32,
}

impl View for Oscillator {
    type V = OscillatorView;

    closed spec fn view(&self) -> OscillatorView {
        OscillatorView {
            wavetable: self.wavetable@.map_values(|s: i16| s as int),
            phase: self.phase as int,
            phase_increment: self.phase_increment as int,
            sample_rate: self.sample_rate as int,
        }
    }
}

/// Invariant of a view produced by a well-built oscillator.
pub open spec fn osc_wf(o: OscillatorView) -> bool {
    &&& o.wavetable == wavetable_contents()
    &&& 0 <= o.phase < PHASE_MODULUS as int
    &&& 0 <= o.phase_increment < PHASE_MODULUS as int
    &&& o.sample_rate >= 1
}

/// Build the wavetable: one cycle of the parabolic sine, Q15 amplitude.
fn build_wavetable() -> (t: Vec<i16>)
    ensures
        t@.map_values(|s: i16| s as int) == wavetable_contents(),
{
    let mut t: Vec<i16> = Vec::new();
    let mut i: usize = 0;
    while i < 1024
        invariant
            i <= 1024,
            t@.len() == i,
            forall|k: int| 0 <= k < i ==> #[trigger] t@[k] as int == wavetable_sample(k),
        decreases 1024 - i,
    {
        proof {
            lemma_wavetable_sample_bounded(i as int);
        }
        let v: i16 = if i < 512 {
            let arch: u32 = (i as u32) * (512 - i as u32);
            assert(arch <= 65536) by (nonlinear_arith)
                requires arch == i * (512 - i), 0 <= i < 512;
            ((32767u64 * arch as u64 / 65536) as u32) as i16
        } else {
            let j: u32 = i as u32 - 512;
            let arch: u32 = j * (512 - j);
            assert(arch <= 65536) by (nonlinear_arith)
                requires arch == (i - 512) * (512 - (i - 512)), 0 <= i - 512 < 512;
            assert((i - 512) * (1024 - i) == (i - 512) * (512 - (i - 512)));
            let m: i16 = ((32767u64 * arch as u64 / 65536) as u32) as i16;
            -m
        };
        t.push(v);
        i = i + 1;
    }
    proof {
        assert(t@.map_values(|s: i16| s as int) =~= wavetable_contents());
    }
    t
}

/// Compute the phase increment for a frequency in millihertz.
fn compute_increment(freq_mhz: u32, sample_rate: u32) -> (inc: u32)
    requires
        sample_rate >= 1,
    ensures
        inc == increment_for(freq_mhz as int, sample_rate as int),
        inc < PHASE_MODULUS,
{
    let modulus: u64 = PHASE_MODULUS as u64;
    assert(modulus == 67108864);
    (((freq_mhz as u64) * modulus) / (1000 * sample_rate as u64) % modulus) as u32
}

impl Oscillator {
    /// Create an oscillator with the wavetable built once, phase zero, and
    /// the increment for the requested frequency (clamped to at least one
    /// millihertz; a zero frequency is degenerate).
    ///
    /// The sample rate must be positive: a zero rate is a construction-time
    /// misconfiguration that has no meaningful phase increment.
    pub fn new(freq_mhz: u32, sample_rate: u32) -> (o: Oscillator)
        requires
            sample_rate >= 1,
        ensures
            osc_wf(o@),
            o@.phase == 0,
            o@.sample_rate == sample_rate as int,
            o@.phase_increment == increment_for(
                if freq_mhz as int >= 1 { freq_mhz as int } else { 1 },
                sample_rate as int,
            ),
    {
        let f: u32 = if freq_mhz >= 1 {
            freq_mhz
        } else {
            1
        };
        Oscillator {
            wavetable: build_wavetable(),
            phase: 0,
            phase_increment: compute_increment(f, sample_rate),
            sample_rate,
        }
    }

    /// Recompute the phase increment for a new frequency (clamped to at
    /// least one millihertz) in O(1); the phase is not reset.
    pub fn set_frequency(&mut self, freq_mhz: u32)
        requires
            osc_wf(old(self)@),
        ensures
            osc_wf(final(self)@),
            final(self)@ == (OscillatorView {
                phase_increment: increment_for(
                    if freq_mhz as int >= 1 { freq_mhz as int } else { 1 },
                    old(self)@.sample_rate,
                ),
                ..old(self)@
            }),
    {
        let f: u32 = if freq_mhz >= 1 {
            freq_mhz
        } else {
            1
        };
        self.phase_increment = compute_increment(f, self.sample_rate);
    }

    /// Advance the phase by the increment, wrap it with the table mask, and
    /// return the wavetable entry under it. Mutates the phase only.
    pub fn tick(&mut self) -> (s: i16)
        requires
            osc_wf(old(self)@),
        ensures
            osc_wf(final(self)@),
            final(self)@ == osc_step(old(self)@),
            s as int == osc_output(old(self)@),
            -32767 <= s as int <= 32767,
    {
        let raw: u32 = self.phase + self.phase_increment;
        assert(raw & 67108863 == raw % 67108864) by (bit_vector);
        let wrapped: u32 = raw & PHASE_MASK;
        self.phase = wrapped;
        let shifted: u32 = wrapped >> 16;
        assert(shifted == wrapped / 65536 && shifted < 1024) by (bit_vector)
            requires shifted == wrapped >> 16, wrapped < 67108864u32;
        let idx: usize = shifted as usize;
        proof {
            assert(self.wavetable@.map_values(|s: i16| s as int).len() == self.wavetable@.len());
            assert(self.wavetable@.len() == 1024);
            assert(self.wavetable@[idx as int] as int == old(self)@.wavetable[idx as int]);
            lemma_wavetable_sample_bounded(idx as int);
        }
        self.wavetable[idx]
    }
}

} // verus!
