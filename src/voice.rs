use vstd::prelude::*;
use crate::FULL;
use crate::envelope::Adsr;
use crate::filter::{pole, pole_of, filter_step, LowPassFilterState, POLE_ONE, FILTER_BOUND};
use crate::math::floor_div;
use crate::noise::{noise_value, HashNoise, NoiseState};
use crate::oscillator::{waveform_value, next_phase, table_within_full, OscillatorState, Waveform};
use crate::pitch::{shift, shift_steps, FREQ_MAX, STEPS_PER_SEMITONE};
use crate::units::{ms_frames, period_frames, Hz, Ms, SampleRateKhz};

verus! {

/// An envelope as configured, its times in milliseconds.
#[derive(Clone, Copy, Debug)]
pub struct AdsrConfig {
    pub attack: Ms,
    pub decay: Ms,
    pub sustain: i32,
    pub release: Ms,
}

/// The oscillator of a layer and its gain.
#[derive(Clone, Copy, Debug)]
pub struct OscillatorConfig {
    pub kind: Waveform,
    pub gain: i32,
}

/// How far the modulation envelope moves the oscillator and the filter, in semitones
/// at the envelope's full level.
#[derive(Clone, Copy, Debug)]
pub struct Modulations {
    pub mod_env_to_osc_freq: i32,
    pub mod_env_to_lpf_freq: i32,
}

/// Largest modulation depth, in semitones either way.
pub const MOD_DEPTH_MAX: i32 = 120;

/// The static configuration of a voice: set once, read on every frame.
#[derive(Clone, Copy, Debug)]
pub struct Layer {
    pub osc: OscillatorConfig,
    /// The gain of the noise mixed in.
    pub noise: i32,
    /// The cutoff of the low-pass filter before modulation.
    pub lpf_freq: Hz,
    pub amp_env: AdsrConfig,
    pub mod_env: AdsrConfig,
    pub modulations: Modulations,
}

/// The per-voice state that the signal chain carries from frame to frame.
#[derive(Clone, Copy, Debug)]
pub struct VoiceState {
    pub osc: OscillatorState,
    pub noise: NoiseState,
    pub lpf: LowPassFilterState,
}

/// What one frame of a voice is drawn with: the static configuration resolved at
/// that frame.
#[derive(Clone, Copy, Debug)]
pub struct RenderPlan {
    pub waveform: Waveform,
    /// The oscillator's period in frames after modulation.
    pub period: u32,
    pub osc_gain: i32,
    pub noise_gain: i32,
    /// The filter pole after modulation of the cutoff.
    pub pole: i64,
    /// The level of the amplitude envelope.
    pub gain: i32,
}

/// A sine table that a voice can draw from: one cycle, its entries within `FULL`.
pub open spec fn sine_table_valid(table: Seq<i16>) -> bool {
    &&& 0 < table.len() <= u32::MAX
    &&& table_within_full(table)
}

/// `sample` scaled by `gain`, `FULL` standing for 1.0, rounded down.
pub open spec fn scaled(sample: int, gain: int) -> int {
    (sample * gain) / (FULL as int)
}

/// Scales a sample by a gain in `[0, FULL]`.
pub fn modulate_amplitude(sample: i32, gain: i32) -> (r: i32)
    requires
        -FILTER_BOUND <= sample <= FILTER_BOUND,
        0 <= gain <= FULL,
    ensures
        r == scaled(sample as int, gain as int),
        -FILTER_BOUND <= r <= FILTER_BOUND,
        -FULL <= sample <= FULL ==> -FULL <= r <= FULL,
{
    proof {
        lemma_scaled_bounds(sample as int, gain as int, FILTER_BOUND as int);
        lemma_scaled_bounds(sample as int, gain as int, FULL as int);
    }
    floor_div(sample as i64 * gain as i64, FULL as i64) as i32
}

proof fn lemma_scaled_bounds(sample: int, gain: int, bound: int)
    requires
        0 <= gain <= FULL,
        bound >= 0,
    ensures
        -bound <= sample <= bound ==> -bound <= scaled(sample, gain) <= bound,
{
    if -bound <= sample <= bound {
        let p = sample * gain;
        assert(-bound * FULL <= p <= bound * FULL) by (nonlinear_arith)
            requires
                0 <= gain <= FULL,
                -bound <= sample <= bound,
                p == sample * gain,
        ;
        vstd::arithmetic::div_mod::lemma_div_is_ordered(p, bound * FULL, FULL as int);
        vstd::arithmetic::div_mod::lemma_div_is_ordered(-bound * FULL, p, FULL as int);
        vstd::arithmetic::div_mod::lemma_div_multiples_vanish(bound, FULL as int);
        vstd::arithmetic::div_mod::lemma_div_multiples_vanish(-bound, FULL as int);
        assert(bound * FULL == FULL * bound) by (nonlinear_arith);
        assert(-bound * FULL == FULL * (-bound)) by (nonlinear_arith);
    }
}

impl AdsrConfig {
    /// The sustain level lies in `[0, FULL]`.
    pub open spec fn valid(&self) -> bool {
        0 <= self.sustain <= FULL
    }

    /// The envelope in frames at a sample rate; a time too long for a `u32` of frames
    /// is held at `u32::MAX`.
    pub open spec fn frames_at(&self, rate: int) -> Adsr {
        Adsr {
            attack: clamp_frames(ms_frames(self.attack.0 as int, rate)) as u32,
            decay: clamp_frames(ms_frames(self.decay.0 as int, rate)) as u32,
            sustain: self.sustain,
            release: clamp_frames(ms_frames(self.release.0 as int, rate)) as u32,
        }
    }

    /// The envelope in frames at a sample rate.
    pub fn at_rate(&self, sample_rate: SampleRateKhz) -> (r: Adsr)
        ensures
            r == self.frames_at(sample_rate.0 as int),
    {
        Adsr {
            attack: frames_u32(self.attack.as_samples(sample_rate)),
            decay: frames_u32(self.decay.as_samples(sample_rate)),
            sustain: self.sustain,
            release: frames_u32(self.release.as_samples(sample_rate)),
        }
    }
}

/// A frame count held within `u32::MAX`.
pub open spec fn clamp_frames(frames: int) -> int {
    if frames > u32::MAX { u32::MAX as int } else { frames }
}

fn frames_u32(frames: u64) -> (r: u32)
    ensures
        r == clamp_frames(frames as int),
{
    if frames > u32::MAX as u64 { u32::MAX } else { frames as u32 }
}

/// The steps of 1/256 semitone that an envelope level moves a frequency by, at a depth
/// in semitones, rounded down.
pub open spec fn mod_steps(level: int, depth: int) -> int {
    (level * depth * STEPS_PER_SEMITONE) / (FULL as int)
}

impl Layer {
    /// Gains in `[0, FULL]`, valid envelopes, depths within `MOD_DEPTH_MAX` and a cutoff
    /// within `FREQ_MAX`.
    pub open spec fn valid(&self) -> bool {
        &&& 0 <= self.osc.gain <= FULL
        &&& 0 <= self.noise <= FULL
        &&& self.lpf_freq.0 <= FREQ_MAX
        &&& self.amp_env.valid()
        &&& self.mod_env.valid()
        &&& -MOD_DEPTH_MAX <= self.modulations.mod_env_to_osc_freq <= MOD_DEPTH_MAX
        &&& -MOD_DEPTH_MAX <= self.modulations.mod_env_to_lpf_freq <= MOD_DEPTH_MAX
    }

    /// The plan of the frame at `offset` of a voice at `pitch` (in millihertz): the
    /// modulation envelope moves the oscillator's frequency and the cutoff, the
    /// amplitude envelope gives the gain.
    pub open spec fn plan(&self, pitch: int, rate: int, offset: int, release_offset: Option<u32>) -> RenderPlan {
        let mod_level = self.mod_env.frames_at(rate).level(offset, release_offset);
        let osc_freq = shift_steps(pitch, mod_steps(mod_level, self.modulations.mod_env_to_osc_freq as int));
        let lpf_freq = shift_steps(self.lpf_freq.0 as int, mod_steps(mod_level, self.modulations.mod_env_to_lpf_freq as int));
        RenderPlan {
            waveform: self.osc.kind,
            period: period_frames(osc_freq, rate) as u32,
            osc_gain: self.osc.gain,
            noise_gain: self.noise,
            pole: pole(lpf_freq, rate) as i64,
            gain: self.amp_env.frames_at(rate).level(offset, release_offset) as i32,
        }
    }
}

proof fn lemma_mod_steps_bounds(level: int, depth: int)
    requires
        0 <= level <= FULL,
        -MOD_DEPTH_MAX <= depth <= MOD_DEPTH_MAX,
    ensures
        -MOD_DEPTH_MAX * STEPS_PER_SEMITONE <= mod_steps(level, depth) <= MOD_DEPTH_MAX * STEPS_PER_SEMITONE,
{
    let d = depth * STEPS_PER_SEMITONE;
    lemma_scaled_bounds(d, level, MOD_DEPTH_MAX * STEPS_PER_SEMITONE);
    assert(d * level == level * depth * STEPS_PER_SEMITONE) by (nonlinear_arith)
        requires
            d == depth * STEPS_PER_SEMITONE,
    ;
}

fn mod_shift(level: i32, depth: i32) -> (r: i32)
    requires
        0 <= level <= FULL,
        -MOD_DEPTH_MAX <= depth <= MOD_DEPTH_MAX,
    ensures
        r == mod_steps(level as int, depth as int),
        -MOD_DEPTH_MAX * STEPS_PER_SEMITONE <= r <= MOD_DEPTH_MAX * STEPS_PER_SEMITONE,
{
    proof {
        lemma_mod_steps_bounds(level as int, depth as int);
    }
    floor_div(level as i64 * depth as i64 * STEPS_PER_SEMITONE as i64, FULL as i64) as i32
}

/// The level of a configured envelope at `offset`, at a sample rate.
pub fn sample_envelope(
    adsr_config: AdsrConfig,
    sample_rate: SampleRateKhz,
    offset: u32,
    release_offset: Option<u32>,
) -> (r: i32)
    requires
        adsr_config.valid(),
    ensures
        r == adsr_config.frames_at(sample_rate.0 as int).level(offset as int, release_offset),
        0 <= r <= FULL,
{
    adsr_config.at_rate(sample_rate).sample(offset, release_offset)
}

/// `freq` moved by the envelope level `modulation_sample` at a depth of
/// `modulation_amount` semitones: at the full level by the whole depth, below it by its
/// share, in steps of 1/256 semitone.
pub fn modulate_freq_unipolar(freq: u64, modulation_sample: i32, modulation_amount: i32) -> (r: u64)
    requires
        freq <= FREQ_MAX,
        0 <= modulation_sample <= FULL,
        -MOD_DEPTH_MAX <= modulation_amount <= MOD_DEPTH_MAX,
    ensures
        r == shift_steps(freq as int, mod_steps(modulation_sample as int, modulation_amount as int)),
        r <= freq * 2048,
{
    shift(freq, mod_shift(modulation_sample, modulation_amount))
}

/// Resolves the plan of one frame of a voice at `pitch` millihertz.
pub fn prepare_frame(
    layer: &Layer,
    pitch: u64,
    sample_rate: SampleRateKhz,
    offset: u32,
    release_offset: Option<u32>,
) -> (r: RenderPlan)
    requires
        layer.valid(),
        pitch <= FREQ_MAX,
    ensures
        r == layer.plan(pitch as int, sample_rate.0 as int, offset as int, release_offset),
        0 <= r.gain <= FULL,
        0 <= r.pole <= POLE_ONE,
        r.period >= 1,
{
    let gain = sample_envelope(layer.amp_env, sample_rate, offset, release_offset);
    let mod_level = sample_envelope(layer.mod_env, sample_rate, offset, release_offset);
    let osc_freq = modulate_freq_unipolar(pitch, mod_level, layer.modulations.mod_env_to_osc_freq);
    let lpf_freq = modulate_freq_unipolar(layer.lpf_freq.0, mod_level, layer.modulations.mod_env_to_lpf_freq);
    RenderPlan {
        waveform: layer.osc.kind,
        period: Hz(osc_freq).as_samples(sample_rate),
        osc_gain: layer.osc.gain,
        noise_gain: layer.noise,
        pole: pole_of(lpf_freq, sample_rate.0),
        gain,
    }
}

impl VoiceState {
    /// The state of a voice before its first frame.
    pub fn new(seed: u32) -> (r: VoiceState)
        ensures
            r.osc.phase_accum is None,
            r.noise.seed == seed,
            r.lpf.last == 0,
    {
        VoiceState {
            osc: OscillatorState::new(),
            noise: NoiseState { seed },
            lpf: LowPassFilterState::new(),
        }
    }

    /// The filter's last output lies within `FILTER_BOUND`.
    pub open spec fn valid(&self) -> bool {
        self.lpf.valid()
    }
}

/// The input of the filter on a frame: the oscillator and the noise, each at its gain.
pub open spec fn mix(plan: RenderPlan, state: VoiceState, offset: int, sine_table: Seq<i16>) -> int {
    let osc = waveform_value(plan.waveform, sine_table, state.osc.current_phase(0) as int);
    scaled(osc, plan.osc_gain as int) + scaled(noise_value(state.noise.seed, offset as u32), plan.noise_gain as int)
}

/// The output of one frame of a voice: the filtered mix at the gain of the amplitude
/// envelope.
pub open spec fn voice_output(plan: RenderPlan, state: VoiceState, offset: int, sine_table: Seq<i16>) -> int {
    scaled(filter_step(plan.pole as int, mix(plan, state, offset, sine_table), state.lpf.last as int), plan.gain as int)
}

/// The state of a voice after one frame: the oscillator's phase has moved on by one
/// frame at the planned period, and the filter holds its output.
pub open spec fn next_state(plan: RenderPlan, state: VoiceState, offset: int, sine_table: Seq<i16>) -> VoiceState {
    VoiceState {
        osc: OscillatorState {
            phase_accum: Some(next_phase(state.osc.current_phase(0) as int, plan.period as int) as u32),
        },
        noise: state.noise,
        lpf: LowPassFilterState {
            last: filter_step(plan.pole as int, mix(plan, state, offset, sine_table), state.lpf.last as int) as i32,
        },
    }
}

/// Computes one frame of a voice from its plan, and moves its state on by one frame.
pub fn sample_voice(plan: &RenderPlan, state: &mut VoiceState, offset: u32, sine_table: &Vec<i16>) -> (r: i32)
    requires
        old(state).valid(),
        sine_table_valid(sine_table@),
        plan.period >= 1,
        0 <= plan.osc_gain <= FULL,
        0 <= plan.noise_gain <= FULL,
        0 <= plan.pole <= POLE_ONE,
        0 <= plan.gain <= FULL,
    ensures
        r == voice_output(*plan, *old(state), offset as int, sine_table@),
        *final(state) == next_state(*plan, *old(state), offset as int, sine_table@),
        final(state).valid(),
        -FILTER_BOUND <= r <= FILTER_BOUND,
{
    let osc = state.osc.sample(plan.waveform, sine_table, plan.period, 0);
    let osc = modulate_amplitude(osc, plan.osc_gain);
    let noise = HashNoise { seed: state.noise.seed }.sample(offset);
    let noise = modulate_amplitude(noise, plan.noise_gain);
    let filtered = state.lpf.process(osc + noise, plan.pole);
    modulate_amplitude(filtered, plan.gain)
}

/// Computes the frame at `offset` of a voice at `pitch` millihertz: resolves the frame's
/// plan, then runs the voice's signal chain on it.
pub fn process_layer(
    layer: &Layer,
    state: &mut VoiceState,
    pitch: u64,
    sample_rate: SampleRateKhz,
    offset: u32,
    release_offset: Option<u32>,
    sine_table: &Vec<i16>,
) -> (r: i32)
    requires
        layer.valid(),
        old(state).valid(),
        pitch <= FREQ_MAX,
        sine_table_valid(sine_table@),
    ensures
        r == voice_output(
            layer.plan(pitch as int, sample_rate.0 as int, offset as int, release_offset),
            *old(state), offset as int, sine_table@),
        *final(state) == next_state(
            layer.plan(pitch as int, sample_rate.0 as int, offset as int, release_offset),
            *old(state), offset as int, sine_table@),
        final(state).valid(),
        -FILTER_BOUND <= r <= FILTER_BOUND,
{
    let plan = prepare_frame(layer, pitch, sample_rate, offset, release_offset);
    sample_voice(&plan, state, offset, sine_table)
}

/// The state of a voice after `n` frames from `offset`, one frame at a time.
pub open spec fn state_after(
    layer: Layer,
    state: VoiceState,
    pitch: int,
    rate: int,
    offset: int,
    release_offset: Option<u32>,
    sine_table: Seq<i16>,
    n: nat,
) -> VoiceState
    decreases n,
{
    if n == 0 {
        state
    } else {
        let before = state_after(layer, state, pitch, rate, offset, release_offset, sine_table, (n - 1) as nat);
        next_state(layer.plan(pitch, rate, offset + n - 1, release_offset), before, offset + n - 1, sine_table)
    }
}

/// Renders `buf.len()` consecutive frames of one voice, from frame `offset` on.
pub fn process_layer_buf_sisd(
    layer: &Layer,
    state: &mut VoiceState,
    pitch: u64,
    sample_rate: SampleRateKhz,
    offset: u32,
    release_offset: Option<u32>,
    sine_table: &Vec<i16>,
    buf: &mut Vec<i32>,
)
    requires
        layer.valid(),
        old(state).valid(),
        pitch <= FREQ_MAX,
        sine_table_valid(sine_table@),
        offset + old(buf)@.len() <= u32::MAX,
    ensures
        final(buf)@.len() == old(buf)@.len(),
        *final(state) == state_after(*layer, *old(state), pitch as int, sample_rate.0 as int, offset as int,
            release_offset, sine_table@, old(buf)@.len()),
        final(state).valid(),
        forall|k: int| 0 <= k < old(buf)@.len() ==> #[trigger] final(buf)@[k] == voice_output(
            layer.plan(pitch as int, sample_rate.0 as int, offset + k, release_offset),
            state_after(*layer, *old(state), pitch as int, sample_rate.0 as int, offset as int, release_offset,
                sine_table@, k as nat),
            offset + k, sine_table@),
{
    let ghost start = *state;
    let mut frame = offset;
    let mut k: usize = 0;
    while k < buf.len()
        invariant
            layer.valid(),
            state.valid(),
            pitch <= FREQ_MAX,
            sine_table_valid(sine_table@),
            buf@.len() == old(buf)@.len(),
            offset + buf@.len() <= u32::MAX,
            k <= buf@.len(),
            frame == offset + k,
            *state == state_after(*layer, start, pitch as int, sample_rate.0 as int, offset as int, release_offset,
                sine_table@, k as nat),
            forall|j: int| 0 <= j < k ==> #[trigger] buf@[j] == voice_output(
                layer.plan(pitch as int, sample_rate.0 as int, offset + j, release_offset),
                state_after(*layer, start, pitch as int, sample_rate.0 as int, offset as int, release_offset,
                    sine_table@, j as nat),
                offset + j, sine_table@),
        decreases buf@.len() - k,
    {
        let sample = process_layer(layer, state, pitch, sample_rate, frame, release_offset, sine_table);
        buf.set(k, sample);
        k = k + 1;
        frame = frame + 1;
    }
}

} // verus!
