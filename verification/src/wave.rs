//! The oscillator waveform.
//!
//! A phase is a binary fraction of one cycle: a `u64` in `[0, PHASE_ONE)`,
//! where `PHASE_ONE` stands for a full cycle.  The waveform is a piecewise
//! parabolic approximation of one sine cycle in fixed point: on the first
//! half-cycle it rises from 0 to `AMP_ONE` and back, on the second half-cycle
//! it mirrors below zero.  Its value always lies in `[-AMP_ONE, AMP_ONE]`.

use vstd::prelude::*;

verus! {

/// One full cycle of phase (the modulus of every phase accumulator).
pub const PHASE_ONE: u64 = 0x1_0000_0000;

/// Half a cycle of phase.
pub const HALF_PHASE: u64 = 0x8000_0000;

/// Full scale of an amplitude: the fixed-point value standing for 1.0.
pub const AMP_ONE: i64 = 0x8000;

/// Divisor turning the parabola's peak `HALF_PHASE^2` into `AMP_ONE`:
/// `HALF_PHASE * HALF_PHASE / WAVE_DIV == AMP_ONE`.
pub const WAVE_DIV: u64 = 0x8000_0000_0000;

/// The positive half-cycle parabola: 0 at both ends of `[0, HALF_PHASE]`,
/// `AMP_ONE` at the midpoint.
pub open spec fn half_wave(t: int) -> int {
    4 * t * (HALF_PHASE - t) / (WAVE_DIV as int)
}

/// The waveform: amplitude of an oscillator at phase `p`, positive on the
/// first half-cycle, negative on the second.
pub open spec fn osc_spec(p: int) -> int {
    if p < HALF_PHASE {
        half_wave(p)
    } else {
        -half_wave(p - HALF_PHASE)
    }
}

proof fn lemma_parabola_peak(t: int)
    requires
        0 <= t <= HALF_PHASE,
    ensures
        0 <= 4 * t * (HALF_PHASE - t) <= 0x4000_0000_0000_0000,
{
    assert(0 <= 4 * t * (HALF_PHASE - t) <= 0x4000_0000_0000_0000) by (nonlinear_arith)
        requires
            0 <= t <= HALF_PHASE as int,
    ;
}

/// The half-cycle parabola stays within `[0, AMP_ONE]`.
pub proof fn lemma_half_wave_bounds(t: int)
    requires
        0 <= t <= HALF_PHASE,
    ensures
        0 <= half_wave(t) <= AMP_ONE,
{
    lemma_parabola_peak(t);
    vstd::arithmetic::div_mod::lemma_div_pos_is_pos(4 * t * (HALF_PHASE - t), WAVE_DIV as int);
    vstd::arithmetic::div_mod::lemma_div_is_ordered(
        4 * t * (HALF_PHASE - t),
        0x4000_0000_0000_0000,
        WAVE_DIV as int,
    );
}

/// The waveform is bounded by full scale on either side.
pub proof fn lemma_osc_bounds(p: int)
    requires
        0 <= p < PHASE_ONE,
    ensures
        -AMP_ONE <= osc_spec(p) <= AMP_ONE,
{
    if p < HALF_PHASE {
        lemma_half_wave_bounds(p);
    } else {
        lemma_half_wave_bounds(p - HALF_PHASE);
    }
}

fn half_wave_exec(t: u64) -> (r: i64)
    requires
        t < HALF_PHASE,
    ensures
        r == half_wave(t as int),
        0 <= r <= AMP_ONE,
{
    proof {
        lemma_parabola_peak(t as int);
        lemma_half_wave_bounds(t as int);
        assert(t * (HALF_PHASE - t) <= 0x1000_0000_0000_0000) by (nonlinear_arith)
            requires
                0 <= t < HALF_PHASE as int,
        ;
        assert(4 * (t * (HALF_PHASE - t)) == 4 * t * (HALF_PHASE - t)) by (nonlinear_arith);
    }
    let prod: u64 = t * (HALF_PHASE - t);
    let v: u64 = (4 * prod) / WAVE_DIV;
    v as i64
}

/// Sample the waveform at a phase: `sin`-like, in `[-AMP_ONE, AMP_ONE]`.
pub fn osc(phase: u64) -> (r: i64)
    requires
        phase < PHASE_ONE,
    ensures
        r == osc_spec(phase as int),
        -AMP_ONE <= r <= AMP_ONE,
{
    if phase < HALF_PHASE {
        half_wave_exec(phase)
    } else {
        let v = half_wave_exec(phase - HALF_PHASE);
        -v
    }
}

} // verus!
