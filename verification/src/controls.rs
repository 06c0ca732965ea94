//! Control input handling: multisampled reading, EMA filtering, deadband
//! detection, and parameter mapping for potentiometers.
//!
//! The hardware side (ADC sampling, task scheduling) stays outside this
//! module; it hands in raw readings and carries the returned messages to the
//! engine's queue. The signal chain here is: arithmetic mean of the raw
//! multisamples, exponential moving average, linear normalization into the
//! Q15 range against the calibrated bounds, then a deadband comparison
//! against the last *sent* normalized value — without the deadband every
//! poll cycle would emit a message for pure noise and overwhelm the bounded
//! queue.

use vstd::prelude::*;

use crate::config::ADC_EMA_ALPHA;
use crate::config::FREQUENCY_MAX_MHZ;
use crate::config::FREQUENCY_MIN_MHZ;
use crate::config::POT_CHANGE_THRESHOLD;
use crate::config::POT_MAX;
use crate::config::POT_MIN;
use crate::message::Message;

verus! {

/// Which parameter a potentiometer drives.
#[derive(Debug, Clone, Copy, PartialEq, Eq, Structural)]
pub enum PotType {
    Frequency,
    Volume,
}

/// Mathematical image of a potentiometer's filter state.
pub ghost struct PotView {
    /// EMA-filtered raw value, scaled by 32768 to keep fractional precision.
    pub filtered: int,
    /// EMA coefficient (Q15).
    pub alpha: int,
    /// Last sent normalized value (Q15), the deadband reference.
    pub last_sent: int,
    /// Deadband threshold (Q15).
    pub threshold: int,
    /// Which parameter this pot maps to.
    pub pot_type: PotType,
}

/// Invariant of a well-built potentiometer: the filtered value stays in the
/// scaled raw range and the Q15 fields in the Q15 range.
pub open spec fn pot_wf(p: PotView) -> bool {
    &&& 0 <= p.filtered <= 65535 * 32768
    &&& 0 <= p.alpha <= 32768
    &&& 0 <= p.last_sent <= 32768
    &&& 0 <= p.threshold <= 32768
}

/// Sum of a sequence of raw readings.
pub open spec fn sum_of(samples: Seq<u16>) -> int
    decreases samples.len(),
{
    if samples.len() == 0 {
        0
    } else {
        sum_of(samples.drop_last()) + samples.last()
    }
}

/// Arithmetic mean of the raw multisamples (truncating).
pub open spec fn average_of(samples: Seq<u16>) -> int
    recommends
        samples.len() > 0,
{
    sum_of(samples) / samples.len() as int
}

/// One EMA step over filter state scaled by 32768:
/// filtered' = filtered * alpha + new * (1 - alpha), in Q15.
pub open spec fn ema_next(filtered: int, avg: int, alpha: int) -> int {
    (filtered * alpha + (avg * 32768) * (32768 - alpha)) / 32768
}

/// Linear normalization of a scaled filtered value into the Q15 range,
/// using the calibrated raw bounds, clamped into [0, 32768].
pub open spec fn normalized_of(filtered: int) -> int {
    let raw = filtered / 32768;
    let adj = if raw > POT_MIN as int {
        raw - POT_MIN as int
    } else {
        0
    };
    let scaled = (adj * 32768) / (POT_MAX as int - POT_MIN as int);
    if scaled > 32768 {
        32768
    } else {
        scaled
    }
}

/// Magnitude of the difference of two values.
pub open spec fn abs_diff(a: int, b: int) -> int {
    if a >= b {
        a - b
    } else {
        b - a
    }
}

/// The deadband decision: a normalized reading is sent exactly when it
/// differs from the last sent value by at least the threshold.
pub open spec fn deadband_sends(last_sent: int, norm: int, threshold: int) -> bool {
    abs_diff(norm, last_sent) >= threshold
}

/// A normalized value clamped into the Q15 range (defensive; the signal
/// chain already produces values in range).
pub open spec fn norm_clamped(norm: int) -> int {
    if norm <= 32768 {
        norm
    } else {
        32768
    }
}

/// Frequency in millihertz for a normalized pot position: a linear map onto
/// the configured frequency range.
pub open spec fn pot_freq_of(norm: int) -> int {
    FREQUENCY_MIN_MHZ as int + (norm * (FREQUENCY_MAX_MHZ - FREQUENCY_MIN_MHZ) as int) / 32768
}

/// The message a pot emits for a normalized reading.
pub open spec fn pot_message_for(t: PotType, norm: int) -> Message
    recommends
        0 <= norm <= 32768,
{
    match t {
        PotType::Frequency => Message::SetFrequency(pot_freq_of(norm) as u32),
        PotType::Volume => Message::SetVolume(norm as u16),
    }
}

/// The normalized value one reading produces: mean, EMA, normalization.
pub open spec fn pot_norm(p: PotView, samples: Seq<u16>) -> int {
    normalized_of(ema_next(p.filtered, average_of(samples), p.alpha))
}

/// One full poll step: filter state advances, and a message is produced
/// exactly when the deadband lets the reading through, recording it as the
/// new reference.
pub open spec fn pot_step(p: PotView, samples: Seq<u16>) -> (PotView, Option<Message>) {
    let filtered2 = ema_next(p.filtered, average_of(samples), p.alpha);
    let norm = pot_norm(p, samples);
    if deadband_sends(p.last_sent, norm, p.threshold) {
        (
            PotView { filtered: filtered2, last_sent: norm, ..p },
            Some(pot_message_for(p.pot_type, norm)),
        )
    } else {
        (PotView { filtered: filtered2, ..p }, None)
    }
}

/// Law (deadband): a reading that was sent becomes the new reference, so a
/// consecutive reading whose normalized value differs from the sent one by
/// less than the threshold never produces a second message.
pub proof fn lemma_deadband_suppresses(p: PotView, s1: Seq<u16>, s2: Seq<u16>)
    requires
        pot_step(p, s1).1 is Some,
        abs_diff(pot_norm(pot_step(p, s1).0, s2), pot_norm(p, s1)) < p.threshold,
    ensures
        pot_step(pot_step(p, s1).0, s2).1 is None,
{
}

/// Potentiometer reader with EMA filtering, normalization, and deadband
/// detection. Each pot owns its own filter state; the hardware that
/// produces the raw readings is owned by the polling task outside the core.
pub struct Potentiometer {
    /// EMA-filtered raw value, scaled by 32768.
    filtered: u32,
    /// EMA coefficient (Q15; higher = more smoothing).
    alpha: u16,
    /// Last sent normalized value (Q15), for deadband detection.
    last_sent: u16,
    /// Deadband threshold (Q15): only send when the change is at least this.
    threshold: u16,
    /// Which parameter this pot drives.
    pot_type: PotType,
}

impl View for Potentiometer {
    type V = PotView;

    closed spec fn view(&self) -> PotView {
        PotView {
            filtered: self.filtered as int,
            alpha: self.alpha as int,
            last_sent: self.last_sent as int,
            threshold: self.threshold as int,
            pot_type: self.pot_type,
        }
    }
}

impl Potentiometer {
    /// Create a potentiometer reader with the calibrated range, the
    /// configured EMA coefficient and deadband threshold, and the filter
    /// initialized at the calibrated midpoint.
    pub fn new(pot_type: PotType) -> (p: Potentiometer)
        ensures
            pot_wf(p@),
            p@.filtered == ((POT_MIN + POT_MAX) as int / 2) * 32768,
            p@.alpha == ADC_EMA_ALPHA as int,
            p@.last_sent == 0,
            p@.threshold == POT_CHANGE_THRESHOLD as int,
            p@.pot_type == pot_type,
    {
        Potentiometer {
            filtered: (((POT_MIN + POT_MAX) / 2) as u32) * 32768,
            alpha: ADC_EMA_ALPHA,
            last_sent: 0,
            threshold: POT_CHANGE_THRESHOLD,
            pot_type,
        }
    }

    /// Read one batch of raw ADC multisamples: average them (noise shrinks
    /// with the square root of the count), advance the EMA filter, and
    /// return the normalized Q15 value. The deadband is not consulted here.
    pub fn read(&mut self, samples: &Vec<u16>) -> (norm: u16)
        requires
            pot_wf(old(self)@),
            samples@.len() >= 1,
            samples@.len() <= 0xFFFF_FFFF,
        ensures
            pot_wf(final(self)@),
            final(self)@ == (PotView {
                filtered: ema_next(old(self)@.filtered, average_of(samples@), old(self)@.alpha),
                ..old(self)@
            }),
            norm as int == normalized_of(final(self)@.filtered),
            norm <= 32768,
    {
        let n = samples.len();
        let mut sum: u64 = 0;
        let mut i: usize = 0;
        while i < n
            invariant
                i <= n,
                n == samples@.len(),
                n <= 0xFFFF_FFFF,
                sum == sum_of(samples@.take(i as int)),
                sum <= i * 65535,
            decreases n - i,
        {
            proof {
                assert(samples@.take(i as int + 1).drop_last() =~= samples@.take(i as int));
                assert(samples@.take(i as int + 1).last() == samples@[i as int]);
            }
            sum = sum + samples[i] as u64;
            i = i + 1;
        }
        proof {
            assert(samples@.take(n as int) =~= samples@);
        }
        let avg: u64 = sum / (n as u64);
        proof {
            assert(sum / (n as u64) <= 65535) by (nonlinear_arith)
                requires sum <= n * 65535, n >= 1, n <= 0xFFFF_FFFFu64;
        }
        // EMA in 64-bit: the filtered value is raw-scaled by 32768, the
        // fresh average is promoted to the same scale.
        let f: u64 = self.filtered as u64;
        let a: u64 = self.alpha as u64;
        proof {
            assert(f * a <= 65535 * 32768 * 32768) by (nonlinear_arith)
                requires f <= 65535 * 32768u64, a <= 32768;
            assert((avg * 32768) * (32768 - a) <= 65535 * 32768 * 32768) by (nonlinear_arith)
                requires avg <= 65535, a <= 32768;
            assert(f * a + (avg * 32768) * (32768 - a) <= 65535 * 32768 * 32768) by (
            nonlinear_arith)
                requires
                    f <= 65535 * 32768u64,
                    avg <= 65535,
                    a <= 32768,
            ;
        }
        let num: u64 = f * a + (avg * 32768) * (32768 - a);
        proof {
            assert(num / 32768 <= 65535 * 32768) by (nonlinear_arith)
                requires num <= 65535 * 32768 * 32768u64;
        }
        let filtered2: u32 = (num / 32768) as u32;
        self.filtered = filtered2;
        // Normalize into the Q15 range against the calibrated bounds.
        let raw: u32 = filtered2 / 32768;
        let adj: u32 = if raw > POT_MIN as u32 {
            raw - POT_MIN as u32
        } else {
            0
        };
        assert(adj <= 65535);
        let scaled: u32 = (adj * 32768) / ((POT_MAX - POT_MIN) as u32);
        if scaled > 32768 {
            32768
        } else {
            scaled as u16
        }
    }

    /// Run the whole signal chain on one batch of raw multisamples and
    /// decide: when the normalized value differs from the last sent one by
    /// at least the deadband threshold, record it and return the mapped
    /// message; otherwise return nothing.
    pub fn process_reading(&mut self, samples: &Vec<u16>) -> (m: Option<Message>)
        requires
            pot_wf(old(self)@),
            samples@.len() >= 1,
            samples@.len() <= 0xFFFF_FFFF,
        ensures
            pot_wf(final(self)@),
            final(self)@ == pot_step(old(self)@, samples@).0,
            m == pot_step(old(self)@, samples@).1,
    {
        let norm = self.read(samples);
        let last = self.last_sent;
        let diff: u16 = if norm >= last {
            norm - last
        } else {
            last - norm
        };
        if diff >= self.threshold {
            self.last_sent = norm;
            Some(
                match self.pot_type {
                    PotType::Frequency => Message::SetFrequency(pot_to_frequency(norm)),
                    PotType::Volume => Message::SetVolume(pot_to_volume(norm)),
                },
            )
        } else {
            None
        }
    }
}

/// Map a normalized Q15 pot value to a frequency in millihertz: a linear
/// map onto [FREQUENCY_MIN_MHZ, FREQUENCY_MAX_MHZ] (an exponential map
/// would need transcendental math that the integer core avoids).
pub fn pot_to_frequency(norm: u16) -> (f: u32)
    ensures
        f as int == pot_freq_of(norm_clamped(norm as int)),
        FREQUENCY_MIN_MHZ <= f <= FREQUENCY_MAX_MHZ,
{
    let n: u64 = if norm <= 32768 {
        norm as u64
    } else {
        32768
    };
    let span: u64 = (FREQUENCY_MAX_MHZ - FREQUENCY_MIN_MHZ) as u64;
    proof {
        assert((n * span) / 32768 <= span) by (nonlinear_arith)
            requires n <= 32768, span >= 0;
    }
    FREQUENCY_MIN_MHZ + ((n * span) / 32768) as u32
}

/// Map a normalized Q15 pot value to a Q15 volume: the identity, clamped
/// into [0, 32768].
pub fn pot_to_volume(norm: u16) -> (v: u16)
    ensures
        v as int == norm_clamped(norm as int),
{
    if norm <= 32768 {
        norm
    } else {
        32768
    }
}

/// Map a normalized pot value to a frequency message.
pub fn map_freq(norm: u16) -> (m: Message)
    ensures
        m == pot_message_for(PotType::Frequency, norm_clamped(norm as int)),
{
    Message::SetFrequency(pot_to_frequency(norm))
}

/// Map a normalized pot value to a volume message.
pub fn map_vol(norm: u16) -> (m: Message)
    ensures
        m == pot_message_for(PotType::Volume, norm_clamped(norm as int)),
{
    Message::SetVolume(pot_to_volume(norm))
}

} // verus!
