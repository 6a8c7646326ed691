//! The synthesis engine: oscillator phases, gated envelope, smoothing filter.
//!
//! The engine's whole behaviour is pinned down by a ghost model (`Model`) and
//! a pure transition function (`step`) that advances the model by one output
//! sample.  `generate_buffer` produces exactly the samples of the iterated
//! model, and the control entry points (`on_trigger`, `on_move`,
//! `on_release`) are exact functional updates of the model.

use vstd::prelude::*;
use crate::mapping;
use crate::wave;

verus! {

/// Full scale of the amplitude envelope: the fixed-point value standing
/// for an envelope level of 1.0.
pub const ENV_ONE: u32 = 10_000;

/// Per-sample envelope rise while the trigger is held (about 0.001 of
/// full scale per sample).
pub const ATTACK_RATE: u32 = 10;

/// Per-sample envelope fall while the trigger is released (about 0.0001
/// of full scale per sample).
pub const RELEASE_RATE: u32 = 1;

/// Reciprocal of the smoothing-filter coefficient: the filter moves one
/// twentieth (0.05) of the way toward the raw amplitude each sample.
pub const FILTER_DIV: u64 = 20;

/// Divisor folding the envelope scale and the 0.1 output scale into the
/// mixed amplitude: `mix * level / MIX_DIV` with `mix` carrying a factor 10.
pub const MIX_DIV: u64 = 1_000_000;

/// The ghost state of the engine: every field of the running engine as a
/// mathematical integer, plus the fixed configuration.
#[verifier::ext_equal]
pub ghost struct Model {
    /// Carrier phase accumulator, a fraction of `PHASE_ONE`.
    pub carrier_phase: int,
    /// Carrier per-sample phase increment (fixed at construction).
    pub carrier_inc: int,
    /// First-formant phase accumulator.
    pub f1_phase: int,
    /// First-formant per-sample phase increment.
    pub f1_inc: int,
    /// Second-formant phase accumulator.
    pub f2_phase: int,
    /// Second-formant per-sample phase increment.
    pub f2_inc: int,
    /// Whether the triggering button is held.
    pub gate: bool,
    /// Amplitude envelope level, a fraction of `ENV_ONE`.
    pub level: int,
    /// Smoothing-filter memory: the last output sample.
    pub filter: int,
    /// Output sample rate in hertz (fixed at construction).
    pub rate: int,
    /// Window width in columns (fixed at construction).
    pub width: int,
    /// Window height in rows (fixed at construction).
    pub height: int,
}

/// Truncating division for a possibly negative numerator and a positive
/// divisor, as machine division performs it: the quotient is rounded
/// toward zero.
pub open spec fn trunc_div(n: int, d: int) -> int {
    if n >= 0 {
        n / d
    } else {
        -((-n) / d)
    }
}

/// Largest per-sample phase increment any frequency can produce.
pub open spec fn max_increment() -> int {
    mapping::F2_MAX_MHZ * wave::PHASE_ONE / 1000
}

/// Well-formedness of the model: every field within its documented range.
pub open spec fn wf(m: Model) -> bool {
    &&& 0 <= m.carrier_phase < wave::PHASE_ONE
    &&& 0 <= m.f1_phase < wave::PHASE_ONE
    &&& 0 <= m.f2_phase < wave::PHASE_ONE
    &&& 0 <= m.carrier_inc <= max_increment()
    &&& 0 <= m.f1_inc <= max_increment()
    &&& 0 <= m.f2_inc <= max_increment()
    &&& 0 <= m.level <= ENV_ONE
    &&& -wave::AMP_ONE <= m.filter <= wave::AMP_ONE
    &&& 1 <= m.rate <= u32::MAX
    &&& 2 <= m.width <= u32::MAX
    &&& 2 <= m.height <= u32::MAX
}

/// The raw (unfiltered) amplitude of one sample: the first formant plus 0.8
/// of the second, scaled by the envelope level and by the 0.1 output scale.
pub open spec fn raw_amplitude(f1_phase: int, f2_phase: int, level: int) -> int {
    trunc_div(
        (wave::osc_spec(f1_phase) * 10 + wave::osc_spec(f2_phase) * 8) * level,
        MIX_DIV as int,
    )
}

/// Envelope advance: toward `ENV_ONE` at `ATTACK_RATE` while held, toward 0
/// at `RELEASE_RATE` while released, clamped at both ends.
pub open spec fn next_level(level: int, gate: bool) -> int {
    if gate {
        if level + ATTACK_RATE <= ENV_ONE {
            level + ATTACK_RATE
        } else {
            ENV_ONE as int
        }
    } else {
        if level >= RELEASE_RATE {
            level - RELEASE_RATE
        } else {
            0
        }
    }
}

/// One sample of the engine: advance the carrier (resetting the formant
/// phases when it wraps), advance the formant phases, filter the raw
/// amplitude into the output, then advance the envelope.
pub open spec fn step(m: Model) -> Model {
    let carrier_sum = m.carrier_phase + m.carrier_inc;
    let wrapped = carrier_sum >= wave::PHASE_ONE;
    let f1_base = if wrapped { 0 } else { m.f1_phase };
    let f2_base = if wrapped { 0 } else { m.f2_phase };
    let f1_phase = (f1_base + m.f1_inc) % (wave::PHASE_ONE as int);
    let f2_phase = (f2_base + m.f2_inc) % (wave::PHASE_ONE as int);
    let raw = raw_amplitude(f1_phase, f2_phase, m.level);
    let filter = m.filter + trunc_div(raw - m.filter, FILTER_DIV as int);
    Model {
        carrier_phase: carrier_sum % (wave::PHASE_ONE as int),
        f1_phase,
        f2_phase,
        filter,
        level: next_level(m.level, m.gate),
        ..m
    }
}

/// The model after `n` samples.
pub open spec fn run(m: Model, n: nat) -> Model
    decreases n,
{
    if n == 0 {
        m
    } else {
        step(run(m, (n - 1) as nat))
    }
}

/// The control update: store the phase increments mapped from pointer
/// position `(x, y)` and mark the trigger held.  Nothing else moves.
pub open spec fn control_update(m: Model, x: int, y: int) -> Model {
    Model {
        f1_inc: mapping::increment_spec(mapping::formant1_mhz_spec(x, m.width), m.rate),
        f2_inc: mapping::increment_spec(mapping::formant2_mhz_spec(y, m.height), m.rate),
        gate: true,
        ..m
    }
}

/// The release update: mark the trigger released; frequencies and all
/// audio state stay.
pub open spec fn control_release(m: Model) -> Model {
    Model { gate: false, ..m }
}

/// The freshly constructed model: everything zero but the carrier increment,
/// which is fixed from the 110 Hz base pitch.
pub open spec fn initial_model(rate: int, width: int, height: int) -> Model {
    Model {
        carrier_phase: 0,
        carrier_inc: mapping::increment_spec(mapping::CARRIER_MHZ as int, rate),
        f1_phase: 0,
        f1_inc: 0,
        f2_phase: 0,
        f2_inc: 0,
        gate: false,
        level: 0,
        filter: 0,
        rate,
        width,
        height,
    }
}

/// Truncating division moves the quotient toward zero and never past the
/// numerator: the quotient lies between 0 and `n` inclusive.
pub proof fn lemma_trunc_div_bounds(n: int, d: int)
    requires
        0 < d,
    ensures
        n >= 0 ==> 0 <= trunc_div(n, d) <= n,
        n <= 0 ==> n <= trunc_div(n, d) <= 0,
{
    if n >= 0 {
        vstd::arithmetic::div_mod::lemma_div_pos_is_pos(n, d);
        vstd::arithmetic::div_mod::lemma_div_nonincreasing(n, d);
    } else {
        vstd::arithmetic::div_mod::lemma_div_pos_is_pos(-n, d);
        vstd::arithmetic::div_mod::lemma_div_nonincreasing(-n, d);
    }
}

/// Truncating division keeps a symmetric bound: if `|n| <= b` then
/// `|trunc_div(n, d)| <= b / d`.
pub proof fn lemma_trunc_div_le(n: int, b: int, d: int)
    requires
        0 < d,
        -b <= n <= b,
    ensures
        -(b / d) <= trunc_div(n, d) <= b / d,
{
    lemma_trunc_div_bounds(n, d);
    vstd::arithmetic::div_mod::lemma_div_pos_is_pos(b, d);
    if n >= 0 {
        vstd::arithmetic::div_mod::lemma_div_is_ordered(n, b, d);
    } else {
        vstd::arithmetic::div_mod::lemma_div_is_ordered(-n, b, d);
    }
}

/// One step keeps the model well formed: phases wrap back into
/// `[0, PHASE_ONE)`, the envelope stays in `[0, ENV_ONE]`, and the filter
/// output stays within full scale.
pub proof fn lemma_wf_step(m: Model)
    requires
        wf(m),
    ensures
        wf(step(m)),
{
    let p = wave::PHASE_ONE as int;
    let carrier_sum = m.carrier_phase + m.carrier_inc;
    let wrapped = carrier_sum >= p;
    let f1_base = if wrapped { 0int } else { m.f1_phase };
    let f2_base = if wrapped { 0int } else { m.f2_phase };
    vstd::arithmetic::div_mod::lemma_mod_division_less_than_divisor(carrier_sum, p);
    vstd::arithmetic::div_mod::lemma_mod_division_less_than_divisor(f1_base + m.f1_inc, p);
    vstd::arithmetic::div_mod::lemma_mod_division_less_than_divisor(f2_base + m.f2_inc, p);
    let f1_phase = (f1_base + m.f1_inc) % p;
    let f2_phase = (f2_base + m.f2_inc) % p;
    wave::lemma_osc_bounds(f1_phase);
    wave::lemma_osc_bounds(f2_phase);
    let mixv = wave::osc_spec(f1_phase) * 10 + wave::osc_spec(f2_phase) * 8;
    assert(-5_898_240_000 <= mixv * m.level <= 5_898_240_000) by (nonlinear_arith)
        requires
            -589_824 <= mixv <= 589_824,
            0 <= m.level <= 10_000,
    ;
    lemma_trunc_div_le(mixv * m.level, 5_898_240_000, MIX_DIV as int);
    let raw = raw_amplitude(f1_phase, f2_phase, m.level);
    lemma_trunc_div_bounds(raw - m.filter, FILTER_DIV as int);
}

/// Phase invariant: however many samples the engine runs from a well-formed
/// state, every phase stays in `[0, PHASE_ONE)` and every other field stays
/// in its range.
pub proof fn lemma_wf_run(m: Model, n: nat)
    requires
        wf(m),
    ensures
        wf(run(m, n)),
    decreases n,
{
    if n > 0 {
        lemma_wf_run(m, (n - 1) as nat);
        lemma_wf_step(run(m, (n - 1) as nat));
    }
}

/// Running `a + b` samples is running `a` samples and then `b` more.
pub proof fn lemma_run_add(m: Model, a: nat, b: nat)
    ensures
        run(m, a + b) == run(run(m, a), b),
    decreases b,
{
    if b > 0 {
        lemma_run_add(m, a, (b - 1) as nat);
    }
}

/// The trigger state belongs to the control path alone: no number of
/// samples changes it.
pub proof fn lemma_gate_constant(m: Model, n: nat)
    ensures
        run(m, n).gate == m.gate,
    decreases n,
{
    if n > 0 {
        lemma_gate_constant(m, (n - 1) as nat);
    }
}

/// Envelope monotonicity: while the trigger state is constant across a buffer,
/// the envelope level moves monotonically — upward while held, downward
/// while released — and stays within `[0, ENV_ONE]`.
pub proof fn lemma_envelope_monotonic(m: Model, i: nat, j: nat)
    requires
        wf(m),
        i <= j,
    ensures
        m.gate ==> run(m, i).level <= run(m, j).level,
        !m.gate ==> run(m, j).level <= run(m, i).level,
        0 <= run(m, j).level <= ENV_ONE,
    decreases j,
{
    lemma_wf_run(m, j);
    if i == j {
    } else {
        lemma_envelope_monotonic(m, i, (j - 1) as nat);
        lemma_gate_constant(m, (j - 1) as nat);
        lemma_wf_run(m, (j - 1) as nat);
    }
}

/// Idempotence of the pointer mapping: a second identical update leaves the
/// model exactly as the first did.
pub proof fn lemma_control_update_idempotent(m: Model, x: int, y: int)
    ensures
        control_update(control_update(m, x, y), x, y) == control_update(m, x, y),
{
    assert(control_update(control_update(m, x, y), x, y) =~= control_update(m, x, y));
}

/// While released, the envelope drains by `RELEASE_RATE` per sample until it
/// reaches zero: after `n` samples it is at most `level - n` (and never
/// below zero).
pub proof fn lemma_release_drains(m: Model, n: nat)
    requires
        wf(m),
        !m.gate,
    ensures
        run(m, n).level <= if m.level - n >= 0 {
            m.level - n
        } else {
            0
        },
        0 <= run(m, n).level,
    decreases n,
{
    lemma_wf_run(m, n);
    if n > 0 {
        lemma_release_drains(m, (n - 1) as nat);
        lemma_gate_constant(m, (n - 1) as nat);
        lemma_wf_run(m, (n - 1) as nat);
    }
}

/// How far the filter memory can still be from zero after `n` silent
/// samples, having started at `f0`: it loses at least one unit per sample
/// until it bottoms out below `FILTER_DIV`.
pub open spec fn decay_bound(f0: int, n: nat) -> int {
    if vstd::math::abs(f0) - n >= FILTER_DIV - 1 {
        vstd::math::abs(f0) - n
    } else {
        (FILTER_DIV - 1) as int
    }
}

/// Once the envelope sits at zero with the trigger released, it stays at zero
/// and the filter memory decays toward zero: after `n` samples its magnitude
/// is at most `decay_bound(filter, n)`.
pub proof fn lemma_silence_decay(m: Model, n: nat)
    requires
        wf(m),
        !m.gate,
        m.level == 0,
    ensures
        run(m, n).level == 0,
        vstd::math::abs(run(m, n).filter) <= decay_bound(m.filter, n),
    decreases n,
{
    lemma_gate_constant(m, n);
    lemma_release_drains(m, n);
    if n > 0 {
        lemma_silence_decay(m, (n - 1) as nat);
        lemma_gate_constant(m, (n - 1) as nat);
        lemma_release_drains(m, (n - 1) as nat);
        lemma_wf_run(m, (n - 1) as nat);
        let prev = run(m, (n - 1) as nat);
        let p = wave::PHASE_ONE as int;
        let carrier_sum = prev.carrier_phase + prev.carrier_inc;
        let wrapped = carrier_sum >= p;
        let f1_base = if wrapped { 0int } else { prev.f1_phase };
        let f2_base = if wrapped { 0int } else { prev.f2_phase };
        let f1_phase = (f1_base + prev.f1_inc) % p;
        let f2_phase = (f2_base + prev.f2_inc) % p;
        assert(raw_amplitude(f1_phase, f2_phase, 0) == 0);
        let f = prev.filter;
        lemma_trunc_div_bounds(0 - f, FILTER_DIV as int);
        if f >= FILTER_DIV {
            vstd::arithmetic::div_mod::lemma_div_is_ordered(
                FILTER_DIV as int,
                f,
                FILTER_DIV as int,
            );
        } else if -f >= FILTER_DIV {
            vstd::arithmetic::div_mod::lemma_div_is_ordered(
                FILTER_DIV as int,
                -f,
                FILTER_DIV as int,
            );
        } else {
            if f >= 0 {
                vstd::arithmetic::div_mod::lemma_basic_div(f, FILTER_DIV as int);
            } else {
                vstd::arithmetic::div_mod::lemma_basic_div(-f, FILTER_DIV as int);
            }
        }
    }
}

/// The no-click law: from any well-formed released state, once
/// `ENV_ONE + AMP_ONE` samples have run, the envelope sits at zero and every
/// further output sample is within `FILTER_DIV - 1` of zero — release fades
/// out instead of cutting off.
pub proof fn lemma_release_silence(m: Model, n: nat)
    requires
        wf(m),
        !m.gate,
        n >= ENV_ONE + wave::AMP_ONE,
    ensures
        run(m, n).level == 0,
        -(FILTER_DIV - 1) <= run(m, n).filter <= FILTER_DIV - 1,
{
    let a = ENV_ONE as nat;
    let b = (n - a) as nat;
    lemma_run_add(m, a, b);
    lemma_release_drains(m, a);
    lemma_gate_constant(m, a);
    lemma_wf_run(m, a);
    lemma_silence_decay(run(m, a), b);
}

/// The synthesis engine.  One instance owns all oscillator, envelope and
/// filter state; the audio path calls `generate_buffer` and the control
/// path calls `on_trigger`, `on_move` and `on_release`.
pub struct VoiceSynth {
    carrier_phase: u64,
    carrier_inc: u64,
    f1_phase: u64,
    f1_inc: u64,
    f2_phase: u64,
    f2_inc: u64,
    gate: bool,
    level: u32,
    filter: i64,
    rate: u32,
    width: u32,
    height: u32,
}

impl View for VoiceSynth {
    type V = Model;

    closed spec fn view(&self) -> Model {
        Model {
            carrier_phase: self.carrier_phase as int,
            carrier_inc: self.carrier_inc as int,
            f1_phase: self.f1_phase as int,
            f1_inc: self.f1_inc as int,
            f2_phase: self.f2_phase as int,
            f2_inc: self.f2_inc as int,
            gate: self.gate,
            level: self.level as int,
            filter: self.filter as int,
            rate: self.rate as int,
            width: self.width as int,
            height: self.height as int,
        }
    }
}

impl VoiceSynth {
    /// Build an engine for the given sample rate and window extents.
    /// All dynamic state starts at zero; the carrier increment is fixed
    /// from the 110 Hz base pitch.
    pub fn new(rate: u32, width: u32, height: u32) -> (s: VoiceSynth)
        requires
            1 <= rate,
            2 <= width,
            2 <= height,
        ensures
            s@ == initial_model(rate as int, width as int, height as int),
            wf(s@),
    {
        let carrier_inc = mapping::increment_for(mapping::CARRIER_MHZ, rate);
        let s = VoiceSynth {
            carrier_phase: 0,
            carrier_inc,
            f1_phase: 0,
            f1_inc: 0,
            f2_phase: 0,
            f2_inc: 0,
            gate: false,
            level: 0,
            filter: 0,
            rate,
            width,
            height,
        };
        proof {
            assert(s@ =~= initial_model(rate as int, width as int, height as int));
        }
        s
    }

    /// Advance the engine by one sample and return the output sample:
    /// exactly one application of `step` to the model.
    fn step_sample(&mut self) -> (s: i64)
        requires
            wf(old(self)@),
        ensures
            final(self)@ == step(old(self)@),
            wf(final(self)@),
            s == final(self)@.filter,
    {
        let carrier_sum: u64 = self.carrier_phase + self.carrier_inc;
        let wrapped = carrier_sum >= wave::PHASE_ONE;
        proof {
            vstd::arithmetic::div_mod::lemma_mod_division_less_than_divisor(
                carrier_sum as int,
                wave::PHASE_ONE as int,
            );
        }
        self.carrier_phase = carrier_sum % wave::PHASE_ONE;
        if wrapped {
            self.f1_phase = 0;
            self.f2_phase = 0;
        }
        let f1_sum: u64 = self.f1_phase + self.f1_inc;
        let f2_sum: u64 = self.f2_phase + self.f2_inc;
        proof {
            vstd::arithmetic::div_mod::lemma_mod_division_less_than_divisor(
                f1_sum as int,
                wave::PHASE_ONE as int,
            );
            vstd::arithmetic::div_mod::lemma_mod_division_less_than_divisor(
                f2_sum as int,
                wave::PHASE_ONE as int,
            );
        }
        self.f1_phase = f1_sum % wave::PHASE_ONE;
        self.f2_phase = f2_sum % wave::PHASE_ONE;
        let o1 = wave::osc(self.f1_phase);
        let o2 = wave::osc(self.f2_phase);
        let mix: i64 = o1 * 10 + o2 * 8;
        proof {
            assert(-5_898_240_000 <= mix * (self.level as int) <= 5_898_240_000)
                by (nonlinear_arith)
                requires
                    -589_824 <= mix as int <= 589_824,
                    0 <= self.level as int <= 10_000,
            ;
            lemma_trunc_div_le(mix * (self.level as int), 5_898_240_000, MIX_DIV as int);
        }
        let scaled: i64 = mix * (self.level as i64);
        let raw: i64 = div_trunc(scaled, MIX_DIV);
        proof {
            lemma_trunc_div_bounds(raw - self.filter, FILTER_DIV as int);
        }
        let smoothed: i64 = self.filter + div_trunc(raw - self.filter, FILTER_DIV);
        self.filter = smoothed;
        self.level = if self.gate {
            if self.level + ATTACK_RATE <= ENV_ONE {
                self.level + ATTACK_RATE
            } else {
                ENV_ONE
            }
        } else {
            if self.level >= RELEASE_RATE {
                self.level - RELEASE_RATE
            } else {
                0
            }
        };
        proof {
            assert(self@ =~= step(old(self)@));
        }
        smoothed
    }

    /// Fill `out` with exactly `count` samples, advancing the whole engine
    /// state by `count` applications of `step`.  Every sample is the filter
    /// output of the corresponding intermediate model, and every sample is
    /// bounded by full scale.
    pub fn generate_buffer(&mut self, out: &mut Vec<i64>, count: usize)
        requires
            wf(old(self)@),
        ensures
            final(self)@ == run(old(self)@, count as nat),
            wf(final(self)@),
            final(out)@.len() == count,
            forall|i: int|
                0 <= i < count ==> final(out)@[i] == run(old(self)@, (i + 1) as nat).filter,
            forall|i: int|
                0 <= i < count ==> -wave::AMP_ONE <= #[trigger] final(out)@[i] <= wave::AMP_ONE,
    {
        out.clear();
        let mut i: usize = 0;
        while i < count
            invariant
                i <= count,
                wf(old(self)@),
                self@ == run(old(self)@, i as nat),
                wf(self@),
                out@.len() == i,
                forall|j: int| 0 <= j < i ==> out@[j] == run(old(self)@, (j + 1) as nat).filter,
                forall|j: int| 0 <= j < i ==> -wave::AMP_ONE <= #[trigger] out@[j] <= wave::AMP_ONE,
            decreases count - i,
        {
            let s = self.step_sample();
            out.push(s);
            i = i + 1;
        }
    }

    /// Trigger: mark the trigger held and map pointer position `(x, y)` to
    /// the two formant phase increments.
    pub fn on_trigger(&mut self, x: u32, y: u32)
        requires
            wf(old(self)@),
            x < old(self)@.width,
            y < old(self)@.height,
        ensures
            final(self)@ == control_update(old(self)@, x as int, y as int),
            wf(final(self)@),
    {
        let f1 = mapping::formant1_mhz(x, self.width);
        let f2 = mapping::formant2_mhz(y, self.height);
        self.f1_inc = mapping::increment_for(f1, self.rate);
        self.f2_inc = mapping::increment_for(f2, self.rate);
        self.gate = true;
        proof {
            assert(self@ =~= control_update(old(self)@, x as int, y as int));
        }
    }

    /// Move while triggered: the same effect as `on_trigger`.
    pub fn on_move(&mut self, x: u32, y: u32)
        requires
            wf(old(self)@),
            x < old(self)@.width,
            y < old(self)@.height,
        ensures
            final(self)@ == control_update(old(self)@, x as int, y as int),
            wf(final(self)@),
    {
        self.on_trigger(x, y);
    }

    /// Release: mark the trigger released.  Frequencies and audio state stay;
    /// the envelope will ramp down sample by sample, not jump.
    pub fn on_release(&mut self)
        requires
            wf(old(self)@),
        ensures
            final(self)@ == control_release(old(self)@),
            wf(final(self)@),
    {
        self.gate = false;
        proof {
            assert(self@ =~= control_release(old(self)@));
        }
    }

    /// Current carrier phase, a fraction of `PHASE_ONE`.
    pub fn carrier_phase(&self) -> (r: u64)
        ensures
            r == self@.carrier_phase,
    {
        self.carrier_phase
    }

    /// Current first-formant phase, a fraction of `PHASE_ONE`.
    pub fn formant1_phase(&self) -> (r: u64)
        ensures
            r == self@.f1_phase,
    {
        self.f1_phase
    }

    /// Current second-formant phase, a fraction of `PHASE_ONE`.
    pub fn formant2_phase(&self) -> (r: u64)
        ensures
            r == self@.f2_phase,
    {
        self.f2_phase
    }

    /// Current first-formant per-sample phase increment.
    pub fn formant1_increment(&self) -> (r: u64)
        ensures
            r == self@.f1_inc,
    {
        self.f1_inc
    }

    /// Current second-formant per-sample phase increment.
    pub fn formant2_increment(&self) -> (r: u64)
        ensures
            r == self@.f2_inc,
    {
        self.f2_inc
    }

    /// Carrier per-sample phase increment (fixed at construction).
    pub fn carrier_increment(&self) -> (r: u64)
        ensures
            r == self@.carrier_inc,
    {
        self.carrier_inc
    }

    /// Current envelope level, a fraction of `ENV_ONE`.
    pub fn envelope_level(&self) -> (r: u32)
        ensures
            r == self@.level,
    {
        self.level
    }

    /// Whether the trigger is currently held.
    pub fn gate(&self) -> (r: bool)
        ensures
            r == self@.gate,
    {
        self.gate
    }
}

fn div_trunc(n: i64, d: u64) -> (r: i64)
    requires
        0 < d,
        i64::MIN < n,
    ensures
        r == trunc_div(n as int, d as int),
{
    proof {
        lemma_trunc_div_bounds(n as int, d as int);
    }
    if n >= 0 {
        let q: u64 = (n as u64) / d;
        q as i64
    } else {
        let q: u64 = ((-n) as u64) / d;
        -(q as i64)
    }
}

} // verus!
