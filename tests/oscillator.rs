use s2_lib::oscillator::{
    accum_phase, Oscillator, OscillatorKind, OscillatorState, OscillatorX16, SineOscillator, Waveform,
};
use s2_lib::FULL;

fn sine_table(len: usize) -> Vec<i16> {
    (0..len)
        .map(|i| ((i as f64 / len as f64 * std::f64::consts::PI * 2.0).sin() * FULL as f64).round() as i16)
        .collect()
}

#[test]
fn square_saw_triangle_values() {
    let square = Oscillator { kind: OscillatorKind::Square, period: 100 };
    assert_eq!(square.sample(0), FULL);
    assert_eq!(square.sample(49), FULL);
    assert_eq!(square.sample(50), -FULL);
    assert_eq!(square.sample(99), -FULL);

    let saw = Oscillator { kind: OscillatorKind::Saw, period: 100 };
    assert_eq!(saw.sample(0), FULL);
    assert_eq!(saw.sample(50), 0);
    assert_eq!(saw.sample(99), -32112);

    let triangle = Oscillator { kind: OscillatorKind::Triangle, period: 100 };
    assert_eq!(triangle.sample(0), FULL);
    assert_eq!(triangle.sample(25), 0);
    assert_eq!(triangle.sample(50), -FULL);
    assert_eq!(triangle.sample(75), 0);
}

#[test]
fn stateless_oscillators_are_periodic() {
    for kind in [OscillatorKind::Square, OscillatorKind::Saw, OscillatorKind::Triangle] {
        for period in [1u32, 2, 7, 100, 441] {
            let osc = Oscillator { kind, period };
            for offset in 0..1000u32 {
                assert_eq!(osc.sample(offset), osc.sample(offset + period));
            }
        }
    }
    let sine = SineOscillator { table: sine_table(64), period: 37 };
    for offset in 0..500u32 {
        assert_eq!(sine.sample(offset), sine.sample(offset + 37));
    }
}

#[test]
fn sine_oscillator_reads_and_interpolates_table() {
    let table = sine_table(1024);
    let sine = SineOscillator { table: table.clone(), period: 1024 };
    assert_eq!(sine.sample(0), 0);
    assert_eq!(sine.sample(256), FULL);
    assert_eq!(sine.sample(768), -FULL);
    let half = SineOscillator { table: vec![0, 100], period: 4 };
    // positions 0, 0.5, 1 and 1.5 of the two-entry table
    assert_eq!(half.sample(0), 0);
    assert_eq!(half.sample(1), 50);
    assert_eq!(half.sample(2), 100);
    assert_eq!(half.sample(3), 50);
}

#[test]
fn batched_oscillators_match_scalar() {
    let kinds = [OscillatorKind::Square, OscillatorKind::Saw, OscillatorKind::Triangle];
    let x16 = OscillatorX16 {
        kind: std::array::from_fn(|i| kinds[i % 3]),
        period: std::array::from_fn(|i| 10 + i as u32),
    };
    let offsets: [u32; 16] = std::array::from_fn(|i| i as u32 * 13);
    let lanes = x16.sample(offsets);
    for i in 0..16 {
        let osc = Oscillator { kind: x16.kind[i], period: x16.period[i] };
        assert_eq!(lanes[i], osc.sample(offsets[i]));
    }
}

#[test]
fn phase_accumulates_across_period_changes() {
    let table = sine_table(16);
    let mut state = OscillatorState::new();
    let saw = Waveform::Basic(OscillatorKind::Saw);
    assert_eq!(state.sample(saw, &table, 4, 0), FULL);
    assert_eq!(state.phase_accum, Some(0x4000_0000));
    // the period halves, but the next frame starts where the last one left off
    assert_eq!(state.sample(saw, &table, 2, 0), 16383);
    assert_eq!(state.phase_accum, Some(0xc000_0000));
    assert_eq!(accum_phase(0xc000_0000, 2), 0x4000_0000);
}

#[test]
fn phase_accumulation_avoids_jumps_on_pitch_change() {
    let table = sine_table(16);
    let tri = Waveform::Basic(OscillatorKind::Triangle);
    let mut state = OscillatorState::new();
    let mut last = state.sample(tri, &table, 100, 0);
    let mut largest_step = 0;
    for frame in 1..400u32 {
        let period = if frame < 130 { 100 } else { 60 };
        let value = state.sample(tri, &table, period, 0);
        largest_step = largest_step.max((value - last).abs());
        last = value;
    }
    // at most one frame of the steeper slope: 4 * FULL / 60, plus rounding
    assert!(largest_step <= 4 * FULL / 60 + 2);

    // the stateless oscillator, read at the same frames, jumps where the period changes
    let before = Oscillator { kind: OscillatorKind::Triangle, period: 100 }.sample(129);
    let after = Oscillator { kind: OscillatorKind::Triangle, period: 60 }.sample(130);
    assert!((after - before).abs() > 4 * FULL / 60 + 2);
}
