use vstd::prelude::*;

verus! {

/// The fixed-point scale of a frequency ratio: `RATIO_ONE` stands for 1.0.
pub const RATIO_ONE: u64 = 0x1_0000;

/// `2^(k/12)` for `0 <= k <= 12`, rounded to the nearest `1/RATIO_ONE`.
pub open spec fn semitone_ratio(k: int) -> int {
    if k == 0 { 65536 }
    else if k == 1 { 69433 }
    else if k == 2 { 73562 }
    else if k == 3 { 77936 }
    else if k == 4 { 82570 }
    else if k == 5 { 87480 }
    else if k == 6 { 92682 }
    else if k == 7 { 98193 }
    else if k == 8 { 104032 }
    else if k == 9 { 110218 }
    else if k == 10 { 116772 }
    else if k == 11 { 123715 }
    else { 131072 }
}

/// The steps in a semitone: a shift is counted in 1/256 of a semitone.
pub const STEPS_PER_SEMITONE: i32 = 256;

/// The steps in an octave.
pub const STEPS_PER_OCTAVE: i32 = 3072;

/// `2^(t/3072)` for `0 <= t < 3072` steps within an octave: the ratio of the semitone
/// below, interpolated linearly towards the one above, rounded down.
pub open spec fn step_ratio(t: int) -> int {
    let k = t / (STEPS_PER_SEMITONE as int);
    let fraction = t % (STEPS_PER_SEMITONE as int);
    semitone_ratio(k) + (semitone_ratio(k + 1) - semitone_ratio(k)) * fraction / (STEPS_PER_SEMITONE as int)
}

/// `2^n` for `n >= 0`.
pub open spec fn octave_factor(n: int) -> int
    decreases n,
{
    if n <= 0 { 1 } else { 2 * octave_factor(n - 1) }
}

/// `f` moved by `t` steps of 1/256 semitone, that is multiplied by `2^(t/3072)`,
/// rounded down: the ratio of the step within the octave, then the octaves as powers
/// of two.
pub open spec fn shift_steps(f: int, t: int) -> int {
    let within = t % (STEPS_PER_OCTAVE as int);
    let octaves = t / (STEPS_PER_OCTAVE as int);
    if octaves >= 0 {
        f * step_ratio(within) * octave_factor(octaves) / (RATIO_ONE as int)
    } else {
        f * step_ratio(within) / (RATIO_ONE * octave_factor(-octaves))
    }
}

/// The frequency of a MIDI note in millihertz: note 69 is 440 Hz, and each note is a
/// semitone above the one before.
pub open spec fn note_frequency(note: int) -> int {
    shift_steps(440_000, (note - 69) * STEPS_PER_SEMITONE)
}

/// The lowest shift, in steps, that `shift` takes.
pub const SHIFT_MIN: i32 = -33792;

/// The highest shift, in steps, that `shift` takes.
pub const SHIFT_MAX: i32 = 33791;

/// The largest frequency that `shift` takes, in millihertz.
pub const FREQ_MAX: u64 = 0xf_ffff_ffff;

proof fn lemma_octave_factor_bounds(n: int)
    requires
        0 <= n,
    ensures
        1 <= octave_factor(n),
        n <= 11 ==> octave_factor(n) <= 2048,
    decreases n,
{
    if n > 0 {
        lemma_octave_factor_bounds(n - 1);
    }
    if n <= 11 {
        reveal_with_fuel(octave_factor, 12);
    }
}

fn semitone_ratio_of(k: u32) -> (r: u64)
    requires
        k <= 12,
    ensures
        r == semitone_ratio(k as int),
{
    match k {
        0 => 65536,
        1 => 69433,
        2 => 73562,
        3 => 77936,
        4 => 82570,
        5 => 87480,
        6 => 92682,
        7 => 98193,
        8 => 104032,
        9 => 110218,
        10 => 116772,
        11 => 123715,
        _ => 131072,
    }
}

fn step_ratio_of(t: u32) -> (r: u64)
    requires
        t < 3072,
    ensures
        r == step_ratio(t as int),
        65536 <= r < 131072,
{
    let k = t / 256;
    let fraction = (t % 256) as u64;
    let low = semitone_ratio_of(k);
    let high = semitone_ratio_of(k + 1);
    proof {
        assert(low < high);
        assert((high - low) * fraction <= (high - low) * 255) by (nonlinear_arith)
            requires
                low < high,
                fraction <= 255,
        ;
        vstd::arithmetic::div_mod::lemma_div_is_ordered(((high - low) * fraction) as int, ((high - low) * 255) as int, 256);
        assert(((high - low) * 255) as int / 256 < high - low) by (nonlinear_arith)
            requires
                low < high,
        ;
    }
    low + (high - low) * fraction / 256
}

fn octave_factor_of(n: u32) -> (r: u64)
    requires
        n <= 11,
    ensures
        r == octave_factor(n as int),
{
    let mut r: u64 = 1;
    let mut i: u32 = 0;
    while i < n
        invariant
            i <= n <= 11,
            r == octave_factor(i as int),
        decreases n - i,
    {
        proof {
            lemma_octave_factor_bounds(i as int);
        }
        r = 2 * r;
        i = i + 1;
    }
    r
}

/// Moves frequency `f` by `t` steps of 1/256 semitone.
pub fn shift(f: u64, t: i32) -> (r: u64)
    requires
        f <= FREQ_MAX,
        SHIFT_MIN <= t <= SHIFT_MAX,
    ensures
        r == shift_steps(f as int, t as int),
        r <= f * 2048,
{
    let within = t.checked_rem_euclid(STEPS_PER_OCTAVE);
    let octaves = t.checked_div_euclid(STEPS_PER_OCTAVE);
    let (within, octaves) = match (within, octaves) {
        (Some(w), Some(o)) => (w, o),
        _ => (0, 0),
    };
    proof {
        vstd::arithmetic::div_mod::lemma_fundamental_div_mod(t as int, 3072);
        assert(0 <= within < 3072);
        assert(-11 <= octaves <= 10);
    }
    let ratio = step_ratio_of(within as u32);
    if octaves >= 0 {
        let factor = octave_factor_of(octaves as u32);
        proof {
            lemma_octave_factor_bounds(octaves as int);
            assert(factor <= 1024) by {
                reveal_with_fuel(octave_factor, 11);
            }
            assert(f * ratio <= 0xf_ffff_ffff * 131072) by (nonlinear_arith)
                requires
                    f <= 0xf_ffff_ffff,
                    ratio <= 131072,
            ;
            assert((f * ratio) * factor <= 0xf_ffff_ffff * 131072 * 1024) by (nonlinear_arith)
                requires
                    f <= 0xf_ffff_ffff,
                    ratio <= 131072,
                    factor <= 1024,
            ;
            assert(f * ratio * factor <= f * 2048 * RATIO_ONE) by (nonlinear_arith)
                requires
                    ratio <= 131072,
                    factor <= 1024,
                    RATIO_ONE == 65536,
            ;
            vstd::arithmetic::div_mod::lemma_div_is_ordered((f * ratio * factor) as int, f * 2048 * RATIO_ONE, RATIO_ONE as int);
            vstd::arithmetic::div_mod::lemma_div_multiples_vanish(f * 2048, RATIO_ONE as int);
            assert(f * 2048 * RATIO_ONE == RATIO_ONE * (f * 2048)) by (nonlinear_arith);
        }
        let scaled = f * ratio;
        scaled * factor / RATIO_ONE
    } else {
        let factor = octave_factor_of((-octaves) as u32);
        proof {
            lemma_octave_factor_bounds(-octaves as int);
            assert(f * ratio <= 0xf_ffff_ffff * 131072) by (nonlinear_arith)
                requires
                    f <= 0xf_ffff_ffff,
                    ratio <= 131072,
            ;
            assert(f * ratio <= f * 2048 * (RATIO_ONE * factor)) by (nonlinear_arith)
                requires
                    ratio <= 131072,
                    factor >= 1,
                    RATIO_ONE == 65536,
            ;
            vstd::arithmetic::div_mod::lemma_div_is_ordered((f * ratio) as int, f * 2048 * (RATIO_ONE * factor), (RATIO_ONE * factor) as int);
            vstd::arithmetic::div_mod::lemma_div_multiples_vanish(f * 2048, (RATIO_ONE * factor) as int);
            assert(f * 2048 * (RATIO_ONE * factor) == (RATIO_ONE * factor) * (f * 2048)) by (nonlinear_arith);
        }
        f * ratio / (RATIO_ONE * factor)
    }
}

/// The frequency of a MIDI note in millihertz.
pub fn note_to_pitch(note: u8) -> (r: u64)
    requires
        note <= 127,
    ensures
        r == note_frequency(note as int),
        r <= 440_000 * 2048,
{
    shift(440_000, (note as i32 - 69) * STEPS_PER_SEMITONE)
}

} // verus!
