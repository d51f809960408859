//! A polyphonic synthesizer engine in fixed point: envelopes, oscillators, noise,
//! a one-pole low-pass filter, a voice pool with oldest-first stealing, and the
//! bookkeeping of the buffers that pass between the renderer and the audio device.

use vstd::prelude::*;

verus! {

/// Largest magnitude of a level or a sample: `i16::MAX` stands for 1.0.
pub const FULL: i32 = 32767;

} // verus!

pub mod math;
pub mod envelope;
pub mod oscillator;
pub mod noise;
pub mod units;
pub mod pitch;
pub mod filter;
pub mod voice;
pub mod synth;
pub mod exchange;
