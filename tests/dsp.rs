use s2_lib::filter::{pole_of, LowPassFilterState, POLE_ONE};
use s2_lib::math::{
    clamp_i32_to_i16, floor_div, indexes_u32, line_y_value, line_y_value_with_y_offset, line_y_value_with_y_offset_x16,
    line_y_value_x16, offsets_x16, zip3,
};
use s2_lib::pitch::{note_to_pitch, shift};
use s2_lib::units::{Hz, Ms, SampleRateKhz};
use s2_lib::voice::modulate_amplitude;
use s2_lib::FULL;

#[test]
fn unit_conversions() {
    let rate = SampleRateKhz(48_000);
    assert_eq!(Hz(440_000).as_samples(rate), 109);
    assert_eq!(Hz(0).as_samples(rate), u32::MAX);
    assert_eq!(Hz(u64::MAX).as_samples(rate), 1);
    assert_eq!(Ms(200).as_samples(rate), 9600);
    assert_eq!(Ms(0).as_samples(rate), 0);
}

#[test]
fn note_pitches() {
    assert_eq!(note_to_pitch(69), 440_000);
    assert_eq!(note_to_pitch(81), 880_000);
    assert_eq!(note_to_pitch(57), 220_000);
    assert_eq!(note_to_pitch(60), 261_625);
    // shifts are counted in 1/256 of a semitone
    assert_eq!(shift(1000, 7 * 256), 1498);
    assert_eq!(shift(1000, -12 * 256), 500);
    assert_eq!(shift(1000, 0), 1000);
    // half a semitone lies halfway between the ratios of 0 and 1 semitone
    assert_eq!(shift(1000, 128), 1029);
}

#[test]
fn filter_pole_and_step() {
    // e^(-2 pi 100 / 48000) * 32768 is 32341.86
    assert_eq!(pole_of(100_000, 48_000), 32341);
    // e^(-2 pi 2000 / 48000) * 32768 is 25220.4
    assert_eq!(pole_of(2_000_000, 48_000), 25220);
    // at half the sample rate, e^(-pi) * 32768 is 1416.0; within 0.001 * 32768
    assert_eq!(pole_of(24_000_000, 48_000), 1440);
    assert_eq!(pole_of(0, 48_000), POLE_ONE);
    assert_eq!(pole_of(0, 0), 0);
    let mut state = LowPassFilterState::new();
    assert_eq!(state.process(FULL, 32341), 426);
    assert_eq!(state.last, 426);
    assert_eq!(state.process(0, 32341), 420);
}

#[test]
fn filter_impulse_response_decays() {
    let pole = pole_of(100_000, 48_000);
    let mut state = LowPassFilterState::new();
    let mut last = state.process(FULL, pole);
    assert!(last > 0 && last <= FULL);
    for _ in 0..5000 {
        let next = state.process(0, pole);
        assert!(next >= 0);
        assert!(next <= last);
        last = next;
    }
    assert_eq!(last, 0);
}

#[test]
fn line_helpers() {
    assert_eq!(line_y_value(10, 4, 2), 5);
    assert_eq!(line_y_value(-10, 4, 1), -3);
    assert_eq!(line_y_value_with_y_offset(-2, 1, 3, 1), -5);
    assert_eq!(floor_div(-7, 2), -4);
    assert_eq!(floor_div(7, 2), 3);
    let lanes = line_y_value_x16([10; 16], [4; 16], std::array::from_fn(|i| i as i64));
    for i in 0..16 {
        assert_eq!(lanes[i], line_y_value(10, 4, i as i64));
    }
    let lanes = line_y_value_with_y_offset_x16([-2; 16], [1; 16], [3; 16], [1; 16]);
    assert_eq!(lanes, [-5; 16]);
}

#[test]
fn lane_helpers() {
    assert_eq!(indexes_u32::<4>(), [0, 1, 2, 3]);
    let offsets = offsets_x16(u32::MAX - 1);
    assert_eq!(offsets[0], u32::MAX - 1);
    assert_eq!(offsets[1], u32::MAX);
    assert_eq!(offsets[2], 0);
    assert_eq!(zip3([1, 2], ['a', 'b'], [true, false]), vec![(1, 'a', true), (2, 'b', false)]);
}

#[test]
fn clamping_and_gain() {
    assert_eq!(clamp_i32_to_i16(40_000), i16::MAX);
    assert_eq!(clamp_i32_to_i16(-40_000), i16::MIN);
    assert_eq!(clamp_i32_to_i16(-5), -5);
    assert_eq!(modulate_amplitude(FULL, FULL), FULL);
    assert_eq!(modulate_amplitude(FULL, FULL / 2), FULL / 2);
    assert_eq!(modulate_amplitude(-FULL, FULL / 2), -(FULL / 2));
    assert_eq!(modulate_amplitude(-3, 1), -1);
    assert_eq!(modulate_amplitude(1000, 0), 0);
}

#[test]
fn filter_pole_follows_exponential_up_to_nyquist() {
    for rate in [8_000u32, 44_100, 48_000, 96_000] {
        for step in 0..=400u64 {
            let millihertz = rate as u64 * 1000 / 2 * step / 400;
            let w = 2.0 * std::f64::consts::PI * millihertz as f64 / 1000.0 / rate as f64;
            let exact = (-w).exp() * POLE_ONE as f64;
            let pole = pole_of(millihertz, rate) as f64;
            assert!((pole - exact).abs() <= 0.001 * POLE_ONE as f64, "rate {} f {}", rate, millihertz);
        }
    }
}
