use vstd::prelude::*;
use crate::FULL;
use crate::math::{line_y, line_y_value_with_y_offset, lemma_ramp_within};

verus! {

/// One full cycle of a phase: a phase is a `u32` fraction of `2^32`.
pub const PHASE_CYCLE: u64 = 0x1_0000_0000;

/// The waveforms that need no table.
#[derive(Clone, Copy, Debug, PartialEq, Eq, Structural)]
pub enum OscillatorKind {
    Square,
    Saw,
    Triangle,
}

/// The value of a waveform at position `x` of a cycle of `n` steps (`0 <= x < n`):
/// a square is `FULL` over the first half and `-FULL` over the second; a saw ramps
/// from `FULL` down to `-FULL` over the whole cycle; a triangle ramps from `FULL` to
/// `-FULL` over the first half and back up over the second.
pub open spec fn wave(kind: OscillatorKind, x: int, n: int) -> int {
    match kind {
        OscillatorKind::Square => if 2 * x < n { FULL as int } else { -FULL },
        OscillatorKind::Saw => FULL + line_y(-2 * FULL, n, x),
        OscillatorKind::Triangle => {
            if 2 * x < n {
                FULL + line_y(-4 * FULL, n, x)
            } else {
                -3 * FULL + line_y(4 * FULL, n, x)
            }
        },
    }
}

/// A waveform stays within `[-FULL, FULL]`.
pub proof fn lemma_wave_range(kind: OscillatorKind, x: int, n: int)
    requires
        0 <= x < n,
    ensures
        -FULL <= wave(kind, x, n) <= FULL,
{
    match kind {
        OscillatorKind::Square => {},
        OscillatorKind::Saw => {
            lemma_ramp_within(-2 * FULL, n, x);
        },
        OscillatorKind::Triangle => {
            lemma_ramp_within(4 * FULL, n, x);
            if 2 * x < n {
                assert(-4 * FULL * x >= -2 * FULL * n) by (nonlinear_arith)
                    requires
                        2 * x < n,
                ;
                vstd::arithmetic::div_mod::lemma_div_is_ordered(-2 * FULL * n, -4 * FULL * x, n);
                vstd::arithmetic::div_mod::lemma_div_multiples_vanish(-2 * FULL, n);
                assert(-2 * FULL * n == n * (-2 * FULL)) by (nonlinear_arith);
                lemma_ramp_within(-4 * FULL, n, x);
            } else {
                assert(4 * FULL * x >= 2 * FULL * n) by (nonlinear_arith)
                    requires
                        2 * x >= n,
                ;
                vstd::arithmetic::div_mod::lemma_div_is_ordered(2 * FULL * n, 4 * FULL * x, n);
                vstd::arithmetic::div_mod::lemma_div_multiples_vanish(2 * FULL, n);
                assert(2 * FULL * n == n * (2 * FULL)) by (nonlinear_arith);
            }
        },
    }
}

/// The waveform at position `x` of a cycle of `n` steps, for `n` up to `2^32`.
pub fn wave_at(kind: OscillatorKind, x: u64, n: u64) -> (r: i32)
    requires
        x < n <= PHASE_CYCLE,
    ensures
        r == wave(kind, x as int, n as int),
        -FULL <= r <= FULL,
{
    proof {
        lemma_wave_range(kind, x as int, n as int);
    }
    let full = FULL as i64;
    let x = x as i64;
    let n = n as i64;
    match kind {
        OscillatorKind::Square => if 2 * x < n { FULL } else { -FULL },
        OscillatorKind::Saw => line_y_value_with_y_offset(-2 * full, n, x, full) as i32,
        OscillatorKind::Triangle => {
            if 2 * x < n {
                line_y_value_with_y_offset(-4 * full, n, x, full) as i32
            } else {
                line_y_value_with_y_offset(4 * full, n, x, -3 * full) as i32
            }
        },
    }
}

/// A stateless oscillator: its value depends on the frame offset alone.
#[derive(Clone, Copy, Debug)]
pub struct Oscillator {
    pub kind: OscillatorKind,
    /// The length of one cycle, in frames.
    pub period: u32,
}

impl Oscillator {
    /// The value at frame `offset`.
    pub open spec fn value_at(&self, offset: int) -> int {
        wave(self.kind, offset % (self.period as int), self.period as int)
    }

    /// The value at frame `offset`.
    pub fn sample(&self, offset: u32) -> (r: i32)
        requires
            self.period > 0,
        ensures
            r == self.value_at(offset as int),
            -FULL <= r <= FULL,
    {
        wave_at(self.kind, (offset % self.period) as u64, self.period as u64)
    }

    /// A stateless oscillator repeats itself after each period.
    pub proof fn lemma_periodic(&self, offset: int)
        requires
            self.period > 0,
            offset >= 0,
        ensures
            self.value_at(offset + self.period) == self.value_at(offset),
    {
        vstd::arithmetic::div_mod::lemma_mod_add_multiples_vanish(offset, self.period as int);
    }
}

/// Sixteen stateless oscillators evaluated side by side.
#[derive(Clone, Copy, Debug)]
pub struct OscillatorX16 {
    pub kind: [OscillatorKind; 16],
    pub period: [u32; 16],
}

impl OscillatorX16 {
    /// The oscillator of lane `i`.
    pub open spec fn lane(&self, i: int) -> Oscillator {
        Oscillator { kind: self.kind@[i], period: self.period@[i] }
    }

    /// The value of each lane at its offset: lane by lane, the same value as
    /// `Oscillator::sample`.
    pub fn sample(&self, offset: [u32; 16]) -> (r: [i32; 16])
        requires
            forall|i: int| 0 <= i < 16 ==> #[trigger] self.period@[i] > 0,
        ensures
            forall|i: int| 0 <= i < 16 ==> r@[i] == #[trigger] self.lane(i).value_at(offset@[i] as int),
    {
        let mut out = [0i32; 16];
        let mut i: usize = 0;
        while i < 16
            invariant
                i <= 16,
                forall|j: int| 0 <= j < 16 ==> #[trigger] self.period@[j] > 0,
                forall|j: int| 0 <= j < i ==> out@[j] == #[trigger] self.lane(j).value_at(offset@[j] as int),
            decreases 16 - i,
        {
            let lane = Oscillator { kind: self.kind[i], period: self.period[i] };
            assert(lane == self.lane(i as int));
            out[i] = lane.sample(offset[i]);
            i = i + 1;
        }
        out
    }
}

/// The value of a wavetable at position `x` of a cycle of `n` steps: the table covers
/// one cycle, and the value is interpolated linearly between the two entries around
/// `x`, the last entry leading back to the first.
pub open spec fn table_wave(table: Seq<i16>, x: int, n: int) -> int {
    let pos = x * table.len();
    let i = pos / n;
    let low = table[i] as int;
    let high = table[(i + 1) % (table.len() as int)] as int;
    low + line_y(high - low, n, pos % n)
}

/// Every entry of a table lies within `[-FULL, FULL]`.
pub open spec fn table_within_full(table: Seq<i16>) -> bool {
    forall|i: int| 0 <= i < table.len() ==> -FULL <= #[trigger] table[i] <= FULL
}

/// Linear-interpolated lookup of position `x` in `[0, n)` of a table that covers that
/// range, the last entry leading back to the first.
pub fn table_lookup_exclusive(table: &Vec<i16>, x: u64, n: u64) -> (r: i32)
    requires
        0 < table.len() <= u32::MAX,
        x < n <= PHASE_CYCLE,
    ensures
        r == table_wave(table@, x as int, n as int),
        i16::MIN <= r <= i16::MAX,
        table_within_full(table@) ==> -FULL <= r <= FULL,
{
    let len = table.len() as u64;
    proof {
        assert(x * len < n * len) by (nonlinear_arith)
            requires
                x < n,
                len > 0,
        ;
        assert(n * len <= 0x1_0000_0000 * 0xffff_ffff) by (nonlinear_arith)
            requires
                n <= 0x1_0000_0000,
                len <= 0xffff_ffff,
        ;
        vstd::arithmetic::div_mod::lemma_div_is_ordered((x * len) as int, (n * len - 1) as int, n as int);
        vstd::arithmetic::div_mod::lemma_fundamental_div_mod((n * len - 1) as int, n as int);
        assert(((n * len - 1) as int) / (n as int) < len) by (nonlinear_arith)
            requires
                n > 0,
                (n * len - 1) as int == (n as int) * (((n * len - 1) as int) / (n as int))
                    + ((n * len - 1) as int) % (n as int),
                0 <= ((n * len - 1) as int) % (n as int),
        ;
    }
    let pos = x * len;
    let i = (pos / n) as usize;
    let low = table[i] as i64;
    let high = table[(i + 1) % table.len()] as i64;
    let rem = pos % n;
    proof {
        lemma_ramp_within(high - low, n as int, rem as int);
    }
    line_y_value_with_y_offset(high - low, n as i64, rem as i64, low) as i32
}

/// A wavetable oscillator: one cycle of its table per period, a sine when the table
/// holds one.
#[derive(Debug)]
pub struct SineOscillator {
    pub table: Vec<i16>,
    /// The length of one cycle, in frames.
    pub period: u32,
}

impl SineOscillator {
    /// The table and the period can be sampled.
    pub open spec fn valid(&self) -> bool {
        &&& 0 < self.table.len() <= u32::MAX
        &&& self.period > 0
    }

    /// The value at frame `offset`.
    pub open spec fn value_at(&self, offset: int) -> int {
        table_wave(self.table@, offset % (self.period as int), self.period as int)
    }

    /// The value at frame `offset`.
    pub fn sample(&self, offset: u32) -> (r: i32)
        requires
            self.valid(),
        ensures
            r == self.value_at(offset as int),
    {
        table_lookup_exclusive(&self.table, (offset % self.period) as u64, self.period as u64)
    }

    /// A wavetable oscillator repeats itself after each period.
    pub proof fn lemma_periodic(&self, offset: int)
        requires
            self.valid(),
            offset >= 0,
        ensures
            self.value_at(offset + self.period) == self.value_at(offset),
    {
        vstd::arithmetic::div_mod::lemma_mod_add_multiples_vanish(offset, self.period as int);
    }
}

/// The phase step of one frame at a period of `period` frames: one cycle over the
/// period, rounded down.
pub open spec fn phase_step(period: int) -> int {
    PHASE_CYCLE as int / period
}

/// The phase one frame later.
pub open spec fn next_phase(phase: int, period: int) -> int {
    (phase + phase_step(period)) % (PHASE_CYCLE as int)
}

/// Advances a phase by one frame at a period of `period` frames.
pub fn accum_phase(phase: u32, period: u32) -> (r: u32)
    requires
        period > 0,
    ensures
        r == next_phase(phase as int, period as int),
{
    proof {
        vstd::arithmetic::div_mod::lemma_div_is_ordered_by_denominator(PHASE_CYCLE as int, 1, period as int);
    }
    let step = PHASE_CYCLE / period as u64;
    ((phase as u64 + step) % PHASE_CYCLE) as u32
}

/// The waveform to draw from at a phase.
#[derive(Clone, Copy, Debug, PartialEq, Eq, Structural)]
pub enum Waveform {
    Basic(OscillatorKind),
    Sine,
}

/// The value of a waveform at a phase, given the sine table.
pub open spec fn waveform_value(waveform: Waveform, sine_table: Seq<i16>, phase: int) -> int {
    match waveform {
        Waveform::Basic(kind) => wave(kind, phase, PHASE_CYCLE as int),
        Waveform::Sine => table_wave(sine_table, phase, PHASE_CYCLE as int),
    }
}

/// The state of an oscillator that keeps its phase from frame to frame, so that its
/// period can change between frames without a jump in phase.
#[derive(Clone, Copy, Debug)]
pub struct OscillatorState {
    /// The phase of the next frame; none before the first frame.
    pub phase_accum: Option<u32>,
}

impl OscillatorState {
    /// A state before the first frame.
    pub fn new() -> (r: OscillatorState)
        ensures
            r.phase_accum is None,
    {
        OscillatorState { phase_accum: None }
    }

    /// The phase that the next frame is drawn at, `initial` before the first frame.
    pub open spec fn current_phase(&self, initial: u32) -> u32 {
        match self.phase_accum {
            Some(p) => p,
            None => initial,
        }
    }

    /// Draws one frame at the current phase, then advances the phase by one frame at
    /// `period`.
    pub fn sample(&mut self, waveform: Waveform, sine_table: &Vec<i16>, period: u32, initial: u32) -> (r: i32)
        requires
            period > 0,
            0 < sine_table.len() <= u32::MAX,
        ensures
            r == waveform_value(waveform, sine_table@, old(self).current_phase(initial) as int),
            final(self).phase_accum == Some(
                next_phase(old(self).current_phase(initial) as int, period as int) as u32,
            ),
            i16::MIN <= r <= i16::MAX,
            table_within_full(sine_table@) ==> -FULL <= r <= FULL,
    {
        let phase = match self.phase_accum {
            Some(p) => p,
            None => initial,
        };
        let sample = match waveform {
            Waveform::Basic(kind) => wave_at(kind, phase as u64, PHASE_CYCLE),
            Waveform::Sine => table_lookup_exclusive(sine_table, phase as u64, PHASE_CYCLE),
        };
        self.phase_accum = Some(accum_phase(phase, period));
        sample
    }
}

/// The triangle at position `x` of a cycle of `n` steps, scaled by `n` and not rounded.
pub open spec fn triangle_scaled(x: int, n: int) -> int {
    if 2 * x < n {
        n * FULL - 4 * FULL * x
    } else {
        -3 * n * FULL + 4 * FULL * x
    }
}

proof fn lemma_triangle_rounding(x: int, n: int)
    requires
        0 <= x < n,
    ensures
        n * wave(OscillatorKind::Triangle, x, n) <= triangle_scaled(x, n) < n * wave(OscillatorKind::Triangle, x, n) + n,
{
    let w = wave(OscillatorKind::Triangle, x, n);
    let t = triangle_scaled(x, n);
    let f = FULL as int;
    let (a, base) = if 2 * x < n { (-4 * f * x, f) } else { (4 * f * x, -3 * f) };
    assert(w == base + a / n);
    assert(t == n * base + a) by (nonlinear_arith)
        requires
            f == FULL,
            2 * x < n ==> a == -4 * f * x && base == f,
            2 * x >= n ==> a == 4 * f * x && base == -3 * f,
            t == triangle_scaled(x, n),
    ;
    vstd::arithmetic::div_mod::lemma_fundamental_div_mod(a, n);
    vstd::arithmetic::div_mod::lemma_mod_bound(a, n);
    let q = a / n;
    let r = a % n;
    assert(n * w <= t < n * w + n) by (nonlinear_arith)
        requires
            a == n * q + r,
            0 <= r < n,
            w == base + q,
            t == n * base + a,
    ;
}

proof fn lemma_triangle_scaled_lipschitz(x: int, s: int, n: int)
    requires
        0 <= x < n,
        0 <= s <= n,
        n % 2 == 0,
    ensures
        -4 * FULL * s <= triangle_scaled((x + s) % n, n) - triangle_scaled(x, n) <= 4 * FULL * s,
{
    let y = (x + s) % n;
    if x + s < n {
        vstd::arithmetic::div_mod::lemma_small_mod((x + s) as nat, n as nat);
        assert(y == x + s);
    } else {
        vstd::arithmetic::div_mod::lemma_mod_sub_multiples_vanish(x + s, n);
        vstd::arithmetic::div_mod::lemma_small_mod((x + s - n) as nat, n as nat);
        assert(y == x + s - n);
    }
    let h = n / 2;
    assert(n == 2 * h);
    let tx = triangle_scaled(x, n);
    let ty = triangle_scaled(y, n);
    let f = FULL as int;
    assert(tx == if 2 * x < n { n * f - 4 * f * x } else { -3 * n * f + 4 * f * x });
    assert(ty == if 2 * y < n { n * f - 4 * f * y } else { -3 * n * f + 4 * f * y });
    if x + s < n {
        assert(2 * x >= n ==> 2 * y >= n);
    } else {
        assert(2 * x < n ==> 2 * y < n);
        assert(2 * y >= n ==> s >= h);
        assert(2 * x < n ==> s >= h);
    }
    assert(-4 * f * s <= ty - tx <= 4 * f * s) by (nonlinear_arith)
        requires
            f > 0,
            n == 2 * h,
            0 <= x < n,
            0 <= s <= n,
            0 <= y < n,
            x + s < n ==> y == x + s,
            x + s >= n ==> y == x + s - n,
            x + s < n ==> (2 * x >= n ==> 2 * y >= n),
            x + s >= n ==> (2 * x < n ==> 2 * y < n),
            x + s >= n ==> (2 * y >= n ==> s >= h),
            x + s >= n ==> (2 * x < n ==> s >= h),
            tx == if 2 * x < n { n * f - 4 * f * x } else { -3 * n * f + 4 * f * x },
            ty == if 2 * y < n { n * f - 4 * f * y } else { -3 * n * f + 4 * f * y },
    ;
}

/// Phase continuity: on a triangle, two consecutive frames of the phase-accumulating
/// oscillator differ by less than one frame of its steepest slope at the period that
/// the phase advanced by (`4 * FULL / period`), plus one for rounding. The next frame
/// is read at the advanced phase whatever period it is drawn with, so a change of pitch
/// between frames brings no jump.
pub proof fn lemma_phase_continuity(phase: u32, period: u32)
    requires
        period > 0,
    ensures
        ({
            let d = wave(OscillatorKind::Triangle, next_phase(phase as int, period as int), PHASE_CYCLE as int)
                - wave(OscillatorKind::Triangle, phase as int, PHASE_CYCLE as int);
            period * (if d < 0 { -d } else { d }) < 4 * FULL + period
        }),
{
    let n = PHASE_CYCLE as int;
    let x = phase as int;
    let s = phase_step(period as int);
    let y = next_phase(x, period as int);
    vstd::arithmetic::div_mod::lemma_fundamental_div_mod(n, period as int);
    vstd::arithmetic::div_mod::lemma_div_pos_is_pos(n, period as int);
    vstd::arithmetic::div_mod::lemma_div_is_ordered_by_denominator(n, 1, period as int);
    assert(s * period <= n) by (nonlinear_arith)
        requires
            n == period * s + n % (period as int),
            0 <= n % (period as int),
    ;
    vstd::arithmetic::div_mod::lemma_mod_bound(x + s, n);
    lemma_triangle_rounding(x, n);
    lemma_triangle_rounding(y, n);
    lemma_triangle_scaled_lipschitz(x, s, n);
    let cx = wave(OscillatorKind::Triangle, x, n);
    let cy = wave(OscillatorKind::Triangle, y, n);
    let d = cy - cx;
    let ad = if d < 0 { -d } else { d };
    assert(n * ad < 4 * FULL * s + n) by (nonlinear_arith)
        requires
            n * cx <= triangle_scaled(x, n) < n * cx + n,
            n * cy <= triangle_scaled(y, n) < n * cy + n,
            -4 * FULL * s <= triangle_scaled(y, n) - triangle_scaled(x, n) <= 4 * FULL * s,
            d == cy - cx,
            ad == if d < 0 { -d } else { d },
    ;
    assert(period * ad < 4 * FULL + period) by (nonlinear_arith)
        requires
            n * ad < 4 * FULL * s + n,
            s * period <= n,
            period > 0,
            n > 0,
            s >= 0,
            ad >= 0,
    ;
}

} // verus!
