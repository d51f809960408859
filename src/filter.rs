use vstd::prelude::*;
use crate::FULL;
use crate::math::floor_div;

verus! {

/// The fixed-point scale of a filter coefficient: `POLE_ONE` stands for 1.0.
pub const POLE_ONE: i64 = 0x8000;

/// The fixed-point scale of the pole while it is computed: `POLE_WORK_ONE` stands for 1.0.
pub const POLE_WORK_ONE: u128 = 0x10_0000;

/// `e^(-w / 16)` for `w = 2 pi f / rate`, scaled by `POLE_WORK_ONE` and rounded down,
/// taken as `1 / (1 + x + x^2 / 2)` with `x = w / 16` and `2 pi = 710 / 113`. Written over
/// `d = 16 * 113000 * rate` and `u = 710 * f` (`f` in millihertz), that is
/// `2 d^2 / (2 d^2 + 2 d u + u^2)`.
pub open spec fn pole_root(millihertz: int, rate: int) -> int {
    let d = 1_808_000 * rate;
    let u = 710 * millihertz;
    let held = 2 * (d * d);
    let denominator = held + 2 * (d * u) + u * u;
    if denominator == 0 {
        0
    } else {
        POLE_WORK_ONE * held / denominator
    }
}

/// `p` squared `k` times at the scale `POLE_WORK_ONE`, each square rounded down.
pub open spec fn squared_times(p: int, k: nat) -> int
    decreases k,
{
    if k == 0 {
        p
    } else {
        let q = squared_times(p, (k - 1) as nat);
        q * q / (POLE_WORK_ONE as int)
    }
}

/// The pole `x` of the one-pole low-pass at `millihertz` and `rate` frames per second,
/// scaled by `POLE_ONE` and rounded down: `e^(-w)` with `w = 2 pi f / rate`, as the
/// sixteenth power of `pole_root`. Up to the cutoff of half the sample rate
/// (`w <= pi`) it lies within 0.001 of `e^(-w)`. It lies in `[0, POLE_ONE]`.
pub open spec fn pole(millihertz: int, rate: int) -> int {
    squared_times(pole_root(millihertz, rate), 4) / (POLE_WORK_ONE as int / POLE_ONE as int)
}

/// One step of the filter: `a0 * input - b1 * last` with `a0 = 1 - x` and `b1 = -x`,
/// scaled back from `POLE_ONE` and rounded down.
pub open spec fn filter_step(pole: int, input: int, last: int) -> int {
    ((POLE_ONE - pole) * input + pole * last) / (POLE_ONE as int)
}

/// Largest input frequency that `pole_of` takes, in millihertz.
pub const POLE_FREQ_MAX: u64 = 0xf_ffff_ffff_ffff;

proof fn lemma_square_stays_within(q: int)
    requires
        0 <= q <= POLE_WORK_ONE,
    ensures
        0 <= q * q / (POLE_WORK_ONE as int) <= POLE_WORK_ONE,
        q * q <= POLE_WORK_ONE * POLE_WORK_ONE,
{
    assert(0 <= q * q <= POLE_WORK_ONE * POLE_WORK_ONE) by (nonlinear_arith)
        requires
            0 <= q <= POLE_WORK_ONE,
    ;
    vstd::arithmetic::div_mod::lemma_div_is_ordered(q * q, (POLE_WORK_ONE * POLE_WORK_ONE) as int, POLE_WORK_ONE as int);
    vstd::arithmetic::div_mod::lemma_div_multiples_vanish(POLE_WORK_ONE as int, POLE_WORK_ONE as int);
    vstd::arithmetic::div_mod::lemma_div_pos_is_pos(q * q, POLE_WORK_ONE as int);
}

fn pole_root_of(millihertz: u64, rate: u32) -> (r: u128)
    requires
        millihertz <= POLE_FREQ_MAX,
    ensures
        r == pole_root(millihertz as int, rate as int),
        r <= POLE_WORK_ONE,
{
    let d = 1_808_000u128 * rate as u128;
    let u = 710u128 * millihertz as u128;
    proof {
        assert(d * d <= 0x20_0000_0000_0000 * 0x20_0000_0000_0000) by (nonlinear_arith)
            requires
                d <= 0x20_0000_0000_0000,
        ;
        assert(d * u <= 0x20_0000_0000_0000 * 0x4000_0000_0000_0000) by (nonlinear_arith)
            requires
                d <= 0x20_0000_0000_0000,
                u <= 0x4000_0000_0000_0000,
        ;
        assert(u * u <= 0x4000_0000_0000_0000 * 0x4000_0000_0000_0000) by (nonlinear_arith)
            requires
                u <= 0x4000_0000_0000_0000,
        ;
    }
    let held = 2 * (d * d);
    let denominator = held + 2 * (d * u) + u * u;
    if denominator == 0 {
        0
    } else {
        proof {
            assert(POLE_WORK_ONE * held <= POLE_WORK_ONE * denominator) by (nonlinear_arith)
                requires
                    held <= denominator,
            ;
            vstd::arithmetic::div_mod::lemma_div_is_ordered((POLE_WORK_ONE * held) as int, (POLE_WORK_ONE * denominator) as int, denominator as int);
            vstd::arithmetic::div_mod::lemma_div_multiples_vanish(POLE_WORK_ONE as int, denominator as int);
            assert(POLE_WORK_ONE * denominator == denominator * POLE_WORK_ONE) by (nonlinear_arith);
            assert(d * d == 1_808_000 * rate * (1_808_000 * rate));
        }
        POLE_WORK_ONE * held / denominator
    }
}

/// The filter pole at a frequency and a sample rate.
pub fn pole_of(millihertz: u64, rate: u32) -> (r: i64)
    requires
        millihertz <= POLE_FREQ_MAX,
    ensures
        r == pole(millihertz as int, rate as int),
        0 <= r <= POLE_ONE,
{
    let root = pole_root_of(millihertz, rate);
    let mut p = root;
    let mut k: usize = 0;
    while k < 4
        invariant
            k <= 4,
            root == pole_root(millihertz as int, rate as int),
            root <= POLE_WORK_ONE,
            p == squared_times(root as int, k as nat),
            p <= POLE_WORK_ONE,
        decreases 4 - k,
    {
        proof {
            lemma_square_stays_within(p as int);
        }
        p = p * p / POLE_WORK_ONE;
        k = k + 1;
    }
    proof {
        vstd::arithmetic::div_mod::lemma_div_is_ordered(p as int, POLE_WORK_ONE as int, 32);
    }
    (p / (POLE_WORK_ONE / POLE_ONE as u128)) as i64
}

/// A filter step stays within the larger magnitude of its input and its last output.
pub proof fn lemma_filter_step_bounded(pole: int, input: int, last: int, bound: int)
    requires
        0 <= pole <= POLE_ONE,
        -bound <= input <= bound,
        -bound <= last <= bound,
    ensures
        -bound <= filter_step(pole, input, last) <= bound,
{
    let a = POLE_ONE - pole;
    let n = a * input + pole * last;
    assert(-bound * POLE_ONE <= n <= bound * POLE_ONE) by (nonlinear_arith)
        requires
            0 <= pole <= POLE_ONE,
            a == POLE_ONE - pole,
            n == a * input + pole * last,
            -bound <= input <= bound,
            -bound <= last <= bound,
    ;
    vstd::arithmetic::div_mod::lemma_div_is_ordered(n, bound * POLE_ONE, POLE_ONE as int);
    vstd::arithmetic::div_mod::lemma_div_is_ordered(-bound * POLE_ONE, n, POLE_ONE as int);
    vstd::arithmetic::div_mod::lemma_div_multiples_vanish(bound, POLE_ONE as int);
    vstd::arithmetic::div_mod::lemma_div_multiples_vanish(-bound, POLE_ONE as int);
    assert(bound * POLE_ONE == POLE_ONE * bound) by (nonlinear_arith);
    assert(-bound * POLE_ONE == POLE_ONE * (-bound)) by (nonlinear_arith);
}

/// Largest magnitude of what the filter takes in and holds.
pub const FILTER_BOUND: i32 = 2 * FULL;

/// The low-pass filter's part of a voice's state: its last output.
#[derive(Clone, Copy, Debug)]
pub struct LowPassFilterState {
    pub last: i32,
}

impl LowPassFilterState {
    /// A filter that has seen only silence.
    pub fn new() -> (r: LowPassFilterState)
        ensures
            r.last == 0,
    {
        LowPassFilterState { last: 0 }
    }

    /// The last output lies within `FILTER_BOUND`.
    pub open spec fn valid(&self) -> bool {
        -FILTER_BOUND <= self.last <= FILTER_BOUND
    }

    /// Filters one frame with the given pole and keeps the output as the last one.
    pub fn process(&mut self, input: i32, pole: i64) -> (r: i32)
        requires
            old(self).valid(),
            -FILTER_BOUND <= input <= FILTER_BOUND,
            0 <= pole <= POLE_ONE,
        ensures
            r == filter_step(pole as int, input as int, old(self).last as int),
            final(self).last == r,
            final(self).valid(),
    {
        proof {
            lemma_filter_step_bounded(pole as int, input as int, self.last as int, FILTER_BOUND as int);
            assert((POLE_ONE - pole) * input <= POLE_ONE * FILTER_BOUND) by (nonlinear_arith)
                requires
                    0 <= pole <= POLE_ONE,
                    -FILTER_BOUND <= input <= FILTER_BOUND,
            ;
            assert((POLE_ONE - pole) * input >= -POLE_ONE * FILTER_BOUND) by (nonlinear_arith)
                requires
                    0 <= pole <= POLE_ONE,
                    -FILTER_BOUND <= input <= FILTER_BOUND,
            ;
            assert(pole * self.last <= POLE_ONE * FILTER_BOUND) by (nonlinear_arith)
                requires
                    0 <= pole <= POLE_ONE,
                    -FILTER_BOUND <= self.last <= FILTER_BOUND,
            ;
            assert(pole * self.last >= -POLE_ONE * FILTER_BOUND) by (nonlinear_arith)
                requires
                    0 <= pole <= POLE_ONE,
                    -FILTER_BOUND <= self.last <= FILTER_BOUND,
            ;
        }
        let n = (POLE_ONE - pole) * input as i64 + pole * self.last as i64;
        let out = floor_div(n, POLE_ONE) as i32;
        self.last = out;
        out
    }
}

/// The filter's answer to a unit impulse: `n` frames after an input of `FULL` into a
/// silent filter, the input being silent from then on.
pub open spec fn impulse_response(pole: int, n: nat) -> int
    decreases n,
{
    if n == 0 {
        filter_step(pole, FULL as int, 0)
    } else {
        filter_step(pole, 0, impulse_response(pole, (n - 1) as nat))
    }
}

/// The filter is stable: its answer to a unit impulse never goes below 0, never rises
/// and never leaves `[0, FULL]`.
pub proof fn lemma_impulse_response_decays(pole: int, n: nat)
    requires
        0 <= pole <= POLE_ONE,
    ensures
        0 <= impulse_response(pole, n + 1) <= impulse_response(pole, n) <= FULL,
    decreases n,
{
    if n > 0 {
        lemma_impulse_response_decays(pole, (n - 1) as nat);
    } else {
        lemma_filter_step_bounded(pole, FULL as int, 0, FULL as int);
        let a = POLE_ONE - pole;
        assert(a * FULL >= 0) by (nonlinear_arith)
            requires
                a >= 0,
        ;
        vstd::arithmetic::div_mod::lemma_div_pos_is_pos(a * FULL + pole * 0, POLE_ONE as int);
    }
    let last = impulse_response(pole, n);
    let next = impulse_response(pole, n + 1);
    assert(next == filter_step(pole, 0, last));
    assert(0 <= pole * last <= POLE_ONE * last) by (nonlinear_arith)
        requires
            0 <= pole <= POLE_ONE,
            last >= 0,
    ;
    assert((POLE_ONE - pole) * 0 + pole * last == pole * last) by (nonlinear_arith);
    vstd::arithmetic::div_mod::lemma_div_is_ordered(pole * last, POLE_ONE * last, POLE_ONE as int);
    vstd::arithmetic::div_mod::lemma_div_pos_is_pos(pole * last, POLE_ONE as int);
    vstd::arithmetic::div_mod::lemma_div_multiples_vanish(last, POLE_ONE as int);
}

} // verus!
