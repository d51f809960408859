use vstd::prelude::*;
use crate::FULL;
use crate::math::{line_y, line_y_value_with_y_offset, lemma_ramp_within};

verus! {

/// The odd constant that the hash multiplies by (the golden ratio in 32 bits).
pub const SEED32: u32 = 0x9e37_79b9;

/// `x` rotated left by five bits.
pub open spec fn rotate_left_5(x: u32) -> u32 {
    (x << 5u32) | (x >> 27u32)
}

/// One round of the word hash: rotate the running hash left by five bits, mix in the
/// word by exclusive or, and multiply by `SEED32` modulo `2^32`.
pub open spec fn hash_of(start: u32, word: u32) -> u32 {
    (rotate_left_5(start) ^ word).wrapping_mul(SEED32)
}

/// Mixes `word` into the running hash `start`.
pub fn hash_word(start: u32, word: u32) -> (r: u32)
    ensures
        r == hash_of(start, word),
{
    let rotated = (start << 5u32) | (start >> 27u32);
    (rotated ^ word).wrapping_mul(SEED32)
}

/// Mixes sixteen words into sixteen running hashes, lane by lane.
pub fn hash_word_x16(start: [u32; 16], word: [u32; 16]) -> (r: [u32; 16])
    ensures
        forall|i: int| 0 <= i < 16 ==> r@[i] == #[trigger] hash_of(start@[i], word@[i]),
{
    let mut out = [0u32; 16];
    let mut i: usize = 0;
    while i < 16
        invariant
            i <= 16,
            forall|j: int| 0 <= j < i ==> out@[j] == #[trigger] hash_of(start@[j], word@[j]),
        decreases 16 - i,
    {
        let left = start[i] << 5u32;
        let right = start[i] >> 27u32;
        out[i] = ((left | right) ^ word[i]).wrapping_mul(SEED32);
        i = i + 1;
    }
    out
}

/// The noise value of a seed at a frame: the low sixteen bits of the hash of the
/// frame, scaled from `[0, 65535]` onto `[-FULL, FULL]`.
pub open spec fn noise_value(seed: u32, offset: u32) -> int {
    let low = (hash_of(seed, offset) as int) % 0x1_0000;
    line_y(2 * FULL, 0xffff, low) - FULL
}

/// A noise generator: the same seed and frame always give the same value.
#[derive(Clone, Copy, Debug)]
pub struct HashNoise {
    pub seed: u32,
}

impl HashNoise {
    /// The noise value at frame `offset`.
    pub fn sample(&self, offset: u32) -> (r: i32)
        ensures
            r == noise_value(self.seed, offset),
            -FULL <= r <= FULL,
    {
        let hash = hash_word(self.seed, offset);
        let low = (hash % 0x1_0000) as i64;
        proof {
            lemma_ramp_within(2 * FULL, 0xffff, low as int);
        }
        line_y_value_with_y_offset(2 * FULL as i64, 0xffff, low, -FULL as i64) as i32
    }
}

/// Sixteen frames of one noise generator.
#[derive(Clone, Copy, Debug)]
pub struct HashNoiseX16 {
    pub seed: u32,
}

impl HashNoiseX16 {
    /// The noise value at each of sixteen frames: lane by lane, the same value as
    /// `HashNoise::sample`.
    pub fn sample(&self, offset: [u32; 16]) -> (r: [i32; 16])
        ensures
            forall|i: int| 0 <= i < 16 ==> r@[i] == #[trigger] noise_value(self.seed, offset@[i]),
    {
        let scalar = HashNoise { seed: self.seed };
        let mut out = [0i32; 16];
        let mut i: usize = 0;
        while i < 16
            invariant
                i <= 16,
                scalar.seed == self.seed,
                forall|j: int| 0 <= j < i ==> out@[j] == #[trigger] noise_value(self.seed, offset@[j]),
            decreases 16 - i,
        {
            out[i] = scalar.sample(offset[i]);
            i = i + 1;
        }
        out
    }
}

/// The noise generator's part of a voice's state.
#[derive(Clone, Copy, Debug)]
pub struct NoiseState {
    pub seed: u32,
}

} // verus!
