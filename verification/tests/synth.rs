use formant::engine::VoiceSynth;
use formant::mapping;
use formant::wave;

const RATE: u32 = 44100;
const W: u32 = 600;
const H: u32 = 600;

/// Expected per-sample phase increment for a frequency in millihertz.
fn inc(mhz: u64, rate: u64) -> u64 {
    (mhz as u128 * 0x1_0000_0000u128 / (1000u128 * rate as u128)) as u64
}

#[test]
fn buffer_has_exactly_n_bounded_samples() {
    let mut s = VoiceSynth::new(RATE, W, H);
    s.on_trigger(300, 200);
    let mut out: Vec<i64> = Vec::new();
    s.generate_buffer(&mut out, 1024);
    assert_eq!(out.len(), 1024);
    for &v in &out {
        assert!(-(wave::AMP_ONE) <= v && v <= wave::AMP_ONE);
    }
    s.generate_buffer(&mut out, 0);
    assert_eq!(out.len(), 0);
}

#[test]
fn phases_stay_in_range() {
    let mut s = VoiceSynth::new(RATE, W, H);
    let mut out: Vec<i64> = Vec::new();
    s.on_trigger(599, 0);
    s.generate_buffer(&mut out, 3000);
    s.on_move(17, 451);
    s.generate_buffer(&mut out, 777);
    s.on_release();
    s.generate_buffer(&mut out, 1234);
    assert!(s.carrier_phase() < wave::PHASE_ONE);
    assert!(s.formant1_phase() < wave::PHASE_ONE);
    assert!(s.formant2_phase() < wave::PHASE_ONE);
}

#[test]
fn envelope_monotone_while_gate_constant() {
    let mut s = VoiceSynth::new(RATE, W, H);
    let mut out: Vec<i64> = Vec::new();
    s.on_trigger(100, 100);
    let mut last = s.envelope_level();
    for _ in 0..300 {
        s.generate_buffer(&mut out, 1);
        let now = s.envelope_level();
        assert!(now >= last);
        assert!(now <= 10_000);
        last = now;
    }
    s.on_release();
    let mut last = s.envelope_level();
    for _ in 0..300 {
        s.generate_buffer(&mut out, 1);
        let now = s.envelope_level();
        assert!(now <= last);
        last = now;
    }
}

#[test]
fn identical_moves_give_identical_increments() {
    let mut s = VoiceSynth::new(RATE, W, H);
    s.on_move(123, 456);
    let a1 = s.formant1_increment();
    let a2 = s.formant2_increment();
    s.on_move(123, 456);
    assert_eq!(s.formant1_increment(), a1);
    assert_eq!(s.formant2_increment(), a2);
}

#[test]
fn mapping_boundaries() {
    assert_eq!(mapping::formant1_mhz(0, W), 250_000);
    assert_eq!(mapping::formant1_mhz(W - 1, W), 800_000);
    assert_eq!(mapping::formant2_mhz(0, H), 2_500_000);
    assert_eq!(mapping::formant2_mhz(H - 1, H), 500_000);
}

#[test]
fn mapping_midpoint_and_smallest_window() {
    // Halfway across a 601-wide window: exactly halfway in frequency.
    assert_eq!(mapping::formant1_mhz(300, 601), 525_000);
    // The smallest window the mapping accepts has two columns and two rows.
    assert_eq!(mapping::formant1_mhz(0, 2), 250_000);
    assert_eq!(mapping::formant1_mhz(1, 2), 800_000);
    assert_eq!(mapping::formant2_mhz(0, 2), 2_500_000);
    assert_eq!(mapping::formant2_mhz(1, 2), 500_000);
}

#[test]
fn trigger_stores_expected_increments() {
    let mut s = VoiceSynth::new(RATE, W, H);
    s.on_trigger(0, 0);
    assert_eq!(s.formant1_increment(), inc(250_000, RATE as u64));
    assert_eq!(s.formant2_increment(), inc(2_500_000, RATE as u64));
    assert!(s.gate());
    s.on_release();
    assert!(!s.gate());
    // Release keeps the frequencies.
    assert_eq!(s.formant1_increment(), inc(250_000, RATE as u64));
}

#[test]
fn release_fades_to_silence_within_one_second() {
    let mut s = VoiceSynth::new(RATE, W, H);
    let mut out: Vec<i64> = Vec::new();
    s.on_trigger(300, 300);
    s.generate_buffer(&mut out, 5000);
    s.on_release();
    s.generate_buffer(&mut out, RATE as usize);
    assert_eq!(s.envelope_level(), 0);
    // The tail of the buffer is silent to within the filter's last
    // truncated step.
    for &v in &out[out.len() - 100..] {
        assert!(v.abs() < formant::engine::FILTER_DIV as i64);
    }
}

#[test]
fn carrier_wrap_resets_formant_phases() {
    let mut s = VoiceSynth::new(RATE, W, H);
    s.on_trigger(250, 125);
    let c_inc = s.carrier_increment();
    assert_eq!(c_inc, inc(110_000, RATE as u64));
    let f1_inc = s.formant1_increment();
    let f2_inc = s.formant2_increment();
    // The carrier first wraps on sample ceil(44100 / 110) = 401.
    let wrap_at = 401u64;
    assert!((wrap_at - 1) * c_inc < wave::PHASE_ONE);
    assert!(wrap_at * c_inc >= wave::PHASE_ONE);
    let mut out: Vec<i64> = Vec::new();
    s.generate_buffer(&mut out, wrap_at as usize - 1);
    // No wrap yet: phases are the free-running sums.
    assert_eq!(s.carrier_phase(), (wrap_at - 1) * c_inc);
    assert_eq!(
        s.formant1_phase(),
        ((wrap_at as u128 - 1) * f1_inc as u128 % 0x1_0000_0000u128) as u64
    );
    // The wrapping sample: both formant phases are reset to zero before
    // being advanced once.
    s.generate_buffer(&mut out, 1);
    assert_eq!(s.carrier_phase(), wrap_at * c_inc - wave::PHASE_ONE);
    assert_eq!(s.formant1_phase(), f1_inc);
    assert_eq!(s.formant2_phase(), f2_inc);
}

#[test]
fn trigger_ramps_from_zero_without_overshoot() {
    let mut s = VoiceSynth::new(RATE, W, H);
    s.on_trigger(0, H - 1);
    assert_eq!(s.formant1_increment(), inc(250_000, RATE as u64));
    assert_eq!(s.formant2_increment(), inc(500_000, RATE as u64));
    let mut out: Vec<i64> = Vec::new();
    s.generate_buffer(&mut out, RATE as usize);
    // Starts silent: the envelope and the filter both start at zero.
    assert_eq!(out[0], 0);
    // Becomes audible within the attack window...
    assert!(out[..2000].iter().any(|&v| v != 0));
    // ...and never exceeds full scale.
    for &v in &out {
        assert!(-(wave::AMP_ONE) <= v && v <= wave::AMP_ONE);
    }
    // After a held second the envelope has long reached full level.
    assert_eq!(s.envelope_level(), 10_000);
}

#[test]
fn waveform_peaks_and_zero_crossings() {
    assert_eq!(wave::osc(0), 0);
    assert_eq!(wave::osc(0x4000_0000), wave::AMP_ONE);
    assert_eq!(wave::osc(0x8000_0000), 0);
    assert_eq!(wave::osc(0xC000_0000), -wave::AMP_ONE);
    // Symmetry of the two half-cycles.
    assert_eq!(wave::osc(0x2000_0000), -wave::osc(0xA000_0000));
}
