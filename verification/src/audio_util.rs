//! Audio utility functions for format conversions and sample processing.

use vstd::prelude::*;

verus! {

/// A sample clamped to the legal Q15 range [-32767, 32767].
pub open spec fn clamped_sample(s: int) -> int {
    if s < -32767 {
        -32767
    } else if s > 32767 {
        32767
    } else {
        s
    }
}

/// The unsigned 16-bit two's-complement encoding of a sample in
/// [-32768, 32767].
pub open spec fn sample_encoding(s: int) -> int {
    if s >= 0 {
        s
    } else {
        s + 65536
    }
}

/// Low byte of the little-endian 16-bit encoding of the clamped sample.
pub open spec fn sample_lo_byte(s: int) -> u8 {
    (sample_encoding(clamped_sample(s)) % 256) as u8
}

/// High byte of the little-endian 16-bit encoding of the clamped sample.
pub open spec fn sample_hi_byte(s: int) -> u8 {
    (sample_encoding(clamped_sample(s)) / 256) as u8
}

/// Multiply a sample by a Q15 level, truncating the magnitude toward zero.
/// This is the single scaling rule for volume, mix normalization and gain.
pub open spec fn scale_q15(x: int, level: int) -> int {
    if x >= 0 {
        (x * level) / 32768
    } else {
        -(((-x) * level) / 32768)
    }
}

/// Scaling by a level of at most 1.0 never grows a sample's magnitude.
pub proof fn lemma_scale_q15_bound(x: int, level: int)
    requires
        0 <= level <= 32768,
    ensures
        x >= 0 ==> 0 <= scale_q15(x, level) <= x,
        x < 0 ==> x <= scale_q15(x, level) <= 0,
{
    if x >= 0 {
        assert(x * level <= x * 32768) by (nonlinear_arith)
            requires 0 <= level <= 32768, x >= 0;
        assert(x * level >= 0) by (nonlinear_arith)
            requires level >= 0, x >= 0;
        assert((x * 32768) / 32768 == x) by (nonlinear_arith);
        assert((x * level) / 32768 <= (x * 32768) / 32768) by (nonlinear_arith)
            requires x * level <= x * 32768, x * level >= 0;
        assert((x * level) / 32768 >= 0);
    } else {
        let m = -x;
        assert(m * level <= m * 32768) by (nonlinear_arith)
            requires 0 <= level <= 32768, m >= 0;
        assert(m * level >= 0) by (nonlinear_arith)
            requires level >= 0, m >= 0;
        assert((m * 32768) / 32768 == m) by (nonlinear_arith);
        assert((m * level) / 32768 <= (m * 32768) / 32768) by (nonlinear_arith)
            requires m * level <= m * 32768, m * level >= 0;
    }
}

/// Scaling maps a magnitude bound on the input to a scaled magnitude bound
/// on the output.
pub proof fn lemma_scale_q15_mag(x: int, level: int, bound: int)
    requires
        -bound <= x <= bound,
        0 <= level,
        0 <= bound,
    ensures
        -((bound * level) / 32768) <= scale_q15(x, level) <= (bound * level) / 32768,
{
    if x >= 0 {
        assert(0 <= x * level <= bound * level) by (nonlinear_arith)
            requires 0 <= x <= bound, 0 <= level;
        assert((x * level) / 32768 <= (bound * level) / 32768) by (nonlinear_arith)
            requires 0 <= x * level <= bound * level;
        assert((x * level) / 32768 >= 0);
        assert((bound * level) / 32768 >= 0);
    } else {
        let m = -x;
        assert(0 <= m * level <= bound * level) by (nonlinear_arith)
            requires 0 <= m <= bound, 0 <= level;
        assert((m * level) / 32768 <= (bound * level) / 32768) by (nonlinear_arith)
            requires 0 <= m * level <= bound * level;
        assert((m * level) / 32768 >= 0);
    }
}

/// Multiply a sample by a Q15 level of at most 1.0, truncating toward zero.
pub fn scale_sample(x: i32, level: u16) -> (r: i32)
    requires
        x >= -2147483647,
        level <= 32768,
    ensures
        r as int == scale_q15(x as int, level as int),
        x >= 0 ==> 0 <= r <= x,
        x < 0 ==> x <= r <= 0,
{
    proof {
        lemma_scale_q15_bound(x as int, level as int);
    }
    if x >= 0 {
        ((x as u64 * level as u64) / 32768) as i32
    } else {
        let m: u64 = ((-(x as i64)) as u64 * level as u64) / 32768;
        -(m as i32)
    }
}

/// Convert a Q15 sample to an i16 little-endian byte pair.
///
/// Clamps the input to the [-32767, 32767] range so that mixing arithmetic
/// that overshoots full scale can never wrap around. This is the single choke
/// point where samples leave the engine as bytes, so the clamping and
/// truncation policy is consistent everywhere.
pub fn sample_to_i16_le(sample: i32) -> (r: [u8; 2])
    ensures
        r[0] == sample_lo_byte(sample as int),
        r[1] == sample_hi_byte(sample as int),
{
    let c: i32 = if sample < -32767 {
        -32767
    } else if sample > 32767 {
        32767
    } else {
        sample
    };
    let u: u32 = if c >= 0 {
        c as u32
    } else {
        (c + 65536) as u32
    };
    let lo: u8 = (u % 256) as u8;
    let hi: u8 = (u / 256) as u8;
    [lo, hi]
}

} // verus!
