//! Pointer-to-frequency mapping.
//!
//! Horizontal pointer position interpolates the first formant between 250 Hz
//! and 800 Hz; vertical position interpolates the second between 500 Hz and
//! 2500 Hz, inverted so that "up" raises pitch.  Frequencies are carried in
//! millihertz so the interpolation is exact integer arithmetic, and are then
//! turned into per-sample phase increments by dividing by the sample rate.

use vstd::prelude::*;
use crate::wave::PHASE_ONE;

verus! {

/// Lowest frequency of the first formant, in millihertz.
pub const F1_MIN_MHZ: u64 = 250_000;

/// Highest frequency of the first formant, in millihertz.
pub const F1_MAX_MHZ: u64 = 800_000;

/// Lowest frequency of the second formant, in millihertz.
pub const F2_MIN_MHZ: u64 = 500_000;

/// Highest frequency of the second formant, in millihertz.
pub const F2_MAX_MHZ: u64 = 2_500_000;

/// Carrier (base pitch) frequency, in millihertz: 110 Hz.
pub const CARRIER_MHZ: u64 = 110_000;

/// First-formant frequency for pointer column `x` in a window `w` columns
/// wide: linear interpolation from `F1_MIN_MHZ` at the left edge to
/// `F1_MAX_MHZ` at the right edge.
pub open spec fn formant1_mhz_spec(x: int, w: int) -> int {
    F1_MIN_MHZ + (F1_MAX_MHZ - F1_MIN_MHZ) * x / (w - 1)
}

/// Second-formant frequency for pointer row `y` in a window `h` rows tall:
/// linear interpolation from `F2_MAX_MHZ` at the top edge to `F2_MIN_MHZ` at
/// the bottom edge (inverted, so "up" raises pitch).
pub open spec fn formant2_mhz_spec(y: int, h: int) -> int {
    F2_MIN_MHZ + (F2_MAX_MHZ - F2_MIN_MHZ) * (h - 1 - y) / (h - 1)
}

/// Per-sample phase increment for a frequency in millihertz at a sample rate
/// in hertz: `frequency / sample_rate` as a binary fraction of a cycle.
pub open spec fn increment_spec(f_mhz: int, rate: int) -> int {
    f_mhz * PHASE_ONE / (1000 * rate)
}

/// `a * b / d <= a` whenever `0 <= b <= d` (interpolation cannot overshoot).
proof fn lemma_scaled_fraction_le(a: int, b: int, d: int)
    requires
        0 <= a,
        0 <= b <= d,
        0 < d,
    ensures
        0 <= a * b / d <= a,
{
    assert(0 <= a * b <= a * d) by (nonlinear_arith)
        requires
            0 <= a,
            0 <= b <= d,
    ;
    vstd::arithmetic::div_mod::lemma_div_pos_is_pos(a * b, d);
    vstd::arithmetic::div_mod::lemma_div_is_ordered(a * b, a * d, d);
    vstd::arithmetic::div_mod::lemma_div_by_multiple(a, d);
}

/// Map a pointer column to the first formant's frequency in millihertz.
pub fn formant1_mhz(x: u32, w: u32) -> (r: u64)
    requires
        2 <= w,
        x < w,
    ensures
        r == formant1_mhz_spec(x as int, w as int),
        F1_MIN_MHZ <= r <= F1_MAX_MHZ,
{
    proof {
        lemma_scaled_fraction_le((F1_MAX_MHZ - F1_MIN_MHZ) as int, x as int, w - 1);
        assert((F1_MAX_MHZ - F1_MIN_MHZ) * x <= (F1_MAX_MHZ - F1_MIN_MHZ) * (u32::MAX as int))
            by (nonlinear_arith)
            requires
                0 <= x <= u32::MAX as int,
        ;
    }
    let span: u64 = (F1_MAX_MHZ - F1_MIN_MHZ) * (x as u64);
    F1_MIN_MHZ + span / ((w - 1) as u64)
}

/// Map a pointer row to the second formant's frequency in millihertz.
pub fn formant2_mhz(y: u32, h: u32) -> (r: u64)
    requires
        2 <= h,
        y < h,
    ensures
        r == formant2_mhz_spec(y as int, h as int),
        F2_MIN_MHZ <= r <= F2_MAX_MHZ,
{
    proof {
        lemma_scaled_fraction_le((F2_MAX_MHZ - F2_MIN_MHZ) as int, h - 1 - y, h - 1);
        assert((F2_MAX_MHZ - F2_MIN_MHZ) * (h - 1 - y) <= (F2_MAX_MHZ - F2_MIN_MHZ) * (
        u32::MAX as int)) by (nonlinear_arith)
            requires
                0 <= h - 1 - y <= u32::MAX as int,
        ;
    }
    let up: u64 = ((h - 1 - y) as u64);
    let span: u64 = (F2_MAX_MHZ - F2_MIN_MHZ) * up;
    F2_MIN_MHZ + span / ((h - 1) as u64)
}

/// Turn a frequency in millihertz into a per-sample phase increment.
pub fn increment_for(f_mhz: u64, rate: u32) -> (r: u64)
    requires
        1 <= rate,
        f_mhz <= F2_MAX_MHZ,
    ensures
        r == increment_spec(f_mhz as int, rate as int),
        r <= F2_MAX_MHZ * PHASE_ONE / 1000,
{
    proof {
        assert(f_mhz * PHASE_ONE <= F2_MAX_MHZ * PHASE_ONE) by (nonlinear_arith)
            requires
                f_mhz <= F2_MAX_MHZ,
        ;
        vstd::arithmetic::div_mod::lemma_div_pos_is_pos(
            f_mhz * PHASE_ONE,
            1000 * rate,
        );
        vstd::arithmetic::div_mod::lemma_div_is_ordered_by_denominator(
            (f_mhz * PHASE_ONE) as int,
            1000,
            1000 * rate,
        );
        vstd::arithmetic::div_mod::lemma_div_is_ordered(
            (f_mhz * PHASE_ONE) as int,
            (F2_MAX_MHZ * PHASE_ONE) as int,
            1000,
        );
    }
    let num: u64 = f_mhz * PHASE_ONE;
    num / (1000 * (rate as u64))
}

} // verus!
