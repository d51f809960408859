use s2_lib::oscillator::{OscillatorKind, Waveform};
use s2_lib::synth::{FrameOffset, Note, NoteOffOutcome, Synth, Velocity, NUM_VOICES};
use s2_lib::units::{Hz, Ms, SampleRateKhz};
use s2_lib::voice::{
    modulate_freq_unipolar, process_layer, process_layer_buf_sisd, sample_envelope, AdsrConfig, Layer, Modulations,
    OscillatorConfig, VoiceState,
};
use s2_lib::FULL;

fn sine_table() -> Vec<i16> {
    (0..1024)
        .map(|i| ((i as f64 / 1024.0 * std::f64::consts::PI * 2.0).sin() * FULL as f64).round() as i16)
        .collect()
}

fn config() -> Layer {
    Layer {
        osc: OscillatorConfig { kind: Waveform::Basic(OscillatorKind::Saw), gain: FULL },
        noise: 0,
        lpf_freq: Hz(2_000_000),
        amp_env: AdsrConfig { attack: Ms(1), decay: Ms(1), sustain: FULL / 2, release: Ms(1) },
        mod_env: AdsrConfig { attack: Ms(10), decay: Ms(10), sustain: FULL / 10, release: Ms(5) },
        modulations: Modulations { mod_env_to_osc_freq: 12, mod_env_to_lpf_freq: 24 },
    }
}

const RATE: SampleRateKhz = SampleRateKhz(48_000);

#[test]
fn new_synth_is_silent() {
    let mut synth = Synth::new(config(), sine_table());
    let mut buffer = vec![1; 64];
    synth.sample(&mut buffer, RATE);
    assert!(buffer.iter().all(|&s| s == 0));
    for i in 0..NUM_VOICES {
        assert_eq!(synth.voice(i).current_frame_offset, None);
    }
}

#[test]
fn note_on_sounds_and_advances() {
    let mut synth = Synth::new(config(), sine_table());
    synth.note_on(Note(69), Velocity(FULL));
    let mut buffer = vec![0; 256];
    synth.sample(&mut buffer, RATE);
    assert!(buffer.iter().any(|&s| s != 0));
    assert_eq!(synth.voice(0).current_frame_offset, Some(FrameOffset(256)));
    let mut empty: Vec<i32> = Vec::new();
    synth.sample(&mut empty, RATE);
    assert_eq!(synth.voice(0).current_frame_offset, Some(FrameOffset(256)));
}

#[test]
fn rendering_is_deterministic() {
    let start = || {
        let mut synth = Synth::new(config(), sine_table());
        synth.note_on(Note(60), Velocity(FULL));
        synth.note_on(Note(64), Velocity(FULL));
        synth
    };
    let mut whole = vec![0; 500];
    start().sample(&mut whole, RATE);
    let mut split = start();
    let mut first = vec![0; 250];
    let mut second = vec![0; 250];
    split.sample(&mut first, RATE);
    split.sample(&mut second, RATE);
    first.extend_from_slice(&second);
    assert_eq!(whole, first);
}

#[test]
fn oldest_voice_is_stolen() {
    let mut synth = Synth::new(config(), sine_table());
    let mut buffer = vec![0; 16];
    for k in 0..NUM_VOICES as u8 {
        synth.note_on(Note(60 + k), Velocity(FULL));
        synth.sample(&mut buffer, RATE);
    }
    for i in 0..NUM_VOICES {
        assert_eq!(synth.voice(i).note, Note(60 + i as u8));
    }
    synth.note_on(Note(90), Velocity(FULL));
    assert_eq!(synth.voice(0).note, Note(90));
    assert_eq!(synth.voice(0).current_frame_offset, Some(FrameOffset(0)));
    for i in 1..NUM_VOICES {
        assert_eq!(synth.voice(i).note, Note(60 + i as u8));
    }
}

#[test]
fn stealing_without_rendering_reuses_first_slot() {
    let mut synth = Synth::new(config(), sine_table());
    for k in 0..=NUM_VOICES as u8 {
        synth.note_on(Note(40 + k), Velocity(FULL));
    }
    assert_eq!(synth.voice(0).note, Note(40 + NUM_VOICES as u8));
    assert_eq!(synth.voice(1).note, Note(41));
}

#[test]
fn retriggered_note_fades_previous_voice() {
    let mut synth = Synth::new(config(), sine_table());
    synth.note_on(Note(60), Velocity(FULL));
    let mut buffer = vec![0; 10];
    synth.sample(&mut buffer, RATE);
    synth.note_on(Note(60), Velocity(FULL));
    let old = synth.voice(0);
    assert_eq!(old.note, Note(60));
    assert_eq!(old.current_frame_offset, Some(FrameOffset(10)));
    assert_eq!(old.fast_fade_frame_offset, Some(FrameOffset(10)));
    assert!(!old.is_active());
    let new = synth.voice(1);
    assert_eq!(new.note, Note(60));
    assert!(new.is_active());

    synth.sample(&mut buffer, RATE);
    synth.note_off(Note(60));
    assert_eq!(synth.voice(1).release_frame_offset, Some(FrameOffset(10)));
    assert_eq!(synth.voice(0).release_frame_offset, None);
}

#[test]
fn note_off_twice_changes_nothing() {
    let mut synth = Synth::new(config(), sine_table());
    synth.note_on(Note(50), Velocity(FULL));
    let mut buffer = vec![0; 5];
    synth.sample(&mut buffer, RATE);
    assert_eq!(synth.note_off(Note(50)), NoteOffOutcome::Released);
    assert_eq!(synth.voice(0).release_frame_offset, Some(FrameOffset(5)));
    synth.sample(&mut buffer, RATE);
    assert_eq!(synth.note_off(Note(50)), NoteOffOutcome::AlreadyReleased);
    assert_eq!(synth.voice(0).release_frame_offset, Some(FrameOffset(5)));
    assert_eq!(synth.note_off(Note(51)), NoteOffOutcome::NotPlaying);
    assert_eq!(synth.voice(0).release_frame_offset, Some(FrameOffset(5)));
}

#[test]
fn released_voice_falls_silent() {
    let mut synth = Synth::new(config(), sine_table());
    synth.note_on(Note(69), Velocity(FULL));
    let mut buffer = vec![0; 200];
    synth.sample(&mut buffer, RATE);
    synth.note_off(Note(69));
    // decay ends at 96 frames; the release takes 48 more
    let mut tail = vec![0; 100];
    synth.sample(&mut tail, RATE);
    let mut after = vec![1; 100];
    synth.sample(&mut after, RATE);
    assert!(after.iter().all(|&s| s == 0));
}

#[test]
fn sine_layer_renders_within_bounds() {
    let mut layer = config();
    layer.osc.kind = Waveform::Sine;
    layer.noise = FULL / 4;
    let mut synth = Synth::new(layer, sine_table());
    for note in [30u8, 60, 90, 127, 0] {
        synth.note_on(Note(note), Velocity(FULL));
    }
    let mut buffer = vec![0; 1000];
    synth.sample(&mut buffer, RATE);
    assert!(buffer.iter().all(|&s| s.abs() <= 2 * FULL * NUM_VOICES as i32));
    assert!(buffer.iter().any(|&s| s != 0));
}

#[test]
fn midi_velocity_scales_to_full() {
    assert_eq!(Velocity::from_midi(127), Velocity(FULL));
    assert_eq!(Velocity::from_midi(0), Velocity(0));
    assert_eq!(Velocity::from_midi(64), Velocity(16512));
}

#[test]
fn block_rendering_matches_frame_by_frame() {
    let layer = config();
    let table = sine_table();
    let mut block_state = VoiceState::new(3);
    let mut buf = vec![0; 300];
    process_layer_buf_sisd(&layer, &mut block_state, 440_000, RATE, 10, Some(200), &table, &mut buf);
    let mut state = VoiceState::new(3);
    for k in 0..300u32 {
        let sample = process_layer(&layer, &mut state, 440_000, RATE, 10 + k, Some(200), &table);
        assert_eq!(buf[k as usize], sample);
    }
    assert_eq!(state.lpf.last, block_state.lpf.last);
    assert_eq!(state.osc.phase_accum, block_state.osc.phase_accum);
}

#[test]
fn envelope_and_modulation_steps() {
    let adsr = AdsrConfig { attack: Ms(1), decay: Ms(1), sustain: FULL / 2, release: Ms(1) };
    // 1 ms at 48 kHz is 48 frames
    assert_eq!(sample_envelope(adsr, RATE, 48, None), FULL);
    assert_eq!(sample_envelope(adsr, RATE, 96, None), FULL / 2);
    assert_eq!(sample_envelope(adsr, RATE, 144, Some(96)), 0);
    // a full envelope at a depth of 12 semitones doubles the frequency
    assert_eq!(modulate_freq_unipolar(440_000, FULL, 12), 880_000);
    assert_eq!(modulate_freq_unipolar(440_000, 0, 12), 440_000);
    assert_eq!(modulate_freq_unipolar(440_000, FULL, -12), 220_000);
    // half the level moves by 1535/256 semitones, not by a whole number of them
    assert_eq!(modulate_freq_unipolar(440_000, FULL / 2, 12), 622_113);
}

#[test]
fn saturated_voice_fades_when_a_slot_is_free() {
    let mut synth = Synth::new(config(), sine_table());
    synth.note_on(Note(60), Velocity(FULL));
    synth.voices[0].current_frame_offset = Some(FrameOffset(u32::MAX));
    synth.note_on(Note(60), Velocity(FULL));
    let old = synth.voice(0);
    assert_eq!(old.current_frame_offset, Some(FrameOffset(u32::MAX)));
    assert_eq!(old.fast_fade_frame_offset, Some(FrameOffset(u32::MAX)));
    let new = synth.voice(1);
    assert_eq!(new.note, Note(60));
    assert_eq!(new.current_frame_offset, Some(FrameOffset(0)));
}
