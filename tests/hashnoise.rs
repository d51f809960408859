use s2_lib::noise::{hash_word, hash_word_x16, HashNoise, HashNoiseX16};
use s2_lib::FULL;

#[test]
fn test_hash_word() {
    let start = 0xFF00FF00;
    let word = 0x11111111;
    let hash = hash_word(start, word);

    let start_x16 = [start; 16];
    let word_x16 = [word; 16];
    let hash_x16 = hash_word_x16(start_x16, word_x16);

    assert_eq!(hash, hash_x16[0]);
}

#[test]
fn test_hash_word_dist() {
    // Testing that hash_word produces ~50% 1s.
    // It happens to be exactly true for this number of times through the loop.
    let count = 200004;

    let mut ones = 0;
    for i in 0..count {
        let hash = hash_word(0, i);
        ones += hash.count_ones();
    }

    assert_eq!(ones, count * 16);
}

#[test]
fn hash_word_matches_rotate_xor_multiply() {
    let start: u32 = 0xFF00FF00;
    let word: u32 = 0x11111111;
    let expected = (start.rotate_left(5) ^ word).wrapping_mul(0x9e37_79b9);
    assert_eq!(hash_word(start, word), expected);
    assert_eq!(hash_word(0, 0), 0);
    assert_eq!(hash_word(0, 1), 0x9e37_79b9);
}

#[test]
fn hash_noise_is_reproducible_and_bounded() {
    let noise = HashNoise { seed: 7 };
    for offset in 0..1000u32 {
        let a = noise.sample(offset);
        let b = noise.sample(offset);
        assert_eq!(a, b);
        assert!(a >= -FULL && a <= FULL);
    }
    // Seed 0 at frame 0 hashes to 0: the lowest value.
    assert_eq!(HashNoise { seed: 0 }.sample(0), -FULL);
}

#[test]
fn hash_noise_x16_matches_scalar() {
    let offsets: [u32; 16] = std::array::from_fn(|i| 100 + i as u32 * 3);
    let lanes = HashNoiseX16 { seed: 42 }.sample(offsets);
    for i in 0..16 {
        assert_eq!(lanes[i], HashNoise { seed: 42 }.sample(offsets[i]));
    }
}
