use vstd::prelude::*;

verus! {

/// Bound on the magnitude of a rise handed to the line helpers.
pub const RISE_BOUND: i64 = 0x10_0000;

/// Bound on the magnitude of an x value handed to the line helpers.
pub const X_BOUND: i64 = 0x2_0000_0000;

/// Whether `line_y_value` can take these arguments without overflow.
pub open spec fn line_args_ok(y_rise: int, x_run: int, x_value: int) -> bool {
    &&& x_run > 0
    &&& -RISE_BOUND < y_rise < RISE_BOUND
    &&& -X_BOUND < x_value < X_BOUND
}

/// The y value of the line through the origin with slope `y_rise / x_run`, at `x_value`,
/// rounded down.
pub open spec fn line_y(y_rise: int, x_run: int, x_value: int) -> int {
    (y_rise * x_value) / x_run
}

/// Rounding down by a positive divisor moves a value towards zero, never past it.
pub proof fn lemma_floor_div_bounds(n: int, d: int)
    requires
        d > 0,
    ensures
        n >= 0 ==> 0 <= n / d <= n,
        n < 0 ==> n <= n / d < 0,
{
    vstd::arithmetic::div_mod::lemma_fundamental_div_mod(n, d);
    assert(0 <= n % d < d);
    assert(n >= 0 ==> 0 <= n / d <= n) by (nonlinear_arith)
        requires
            d > 0,
            n == d * (n / d) + n % d,
            0 <= n % d < d,
    ;
    assert(n < 0 ==> n <= n / d < 0) by (nonlinear_arith)
        requires
            d > 0,
            n == d * (n / d) + n % d,
            0 <= n % d < d,
    ;
}

/// A ramp read at a point inside its run stays between zero and its rise.
pub proof fn lemma_ramp_within(y_rise: int, x_run: int, x_value: int)
    requires
        x_run > 0,
        0 <= x_value <= x_run,
    ensures
        y_rise >= 0 ==> 0 <= line_y(y_rise, x_run, x_value) <= y_rise,
        y_rise < 0 ==> y_rise <= line_y(y_rise, x_run, x_value) <= 0,
{
    let p = y_rise * x_value;
    let top = y_rise * x_run;
    vstd::arithmetic::div_mod::lemma_div_multiples_vanish(y_rise, x_run);
    assert(top / x_run == y_rise) by {
        assert(top == x_run * y_rise) by (nonlinear_arith)
            requires
                top == y_rise * x_run,
        ;
    }
    if y_rise >= 0 {
        assert(0 <= p <= top) by (nonlinear_arith)
            requires
                y_rise >= 0,
                0 <= x_value <= x_run,
                p == y_rise * x_value,
                top == y_rise * x_run,
        ;
        vstd::arithmetic::div_mod::lemma_div_is_ordered(p, top, x_run);
        vstd::arithmetic::div_mod::lemma_div_is_ordered(0, p, x_run);
    } else {
        assert(top <= p <= 0) by (nonlinear_arith)
            requires
                y_rise < 0,
                0 <= x_value <= x_run,
                p == y_rise * x_value,
                top == y_rise * x_run,
        ;
        vstd::arithmetic::div_mod::lemma_div_is_ordered(top, p, x_run);
        vstd::arithmetic::div_mod::lemma_div_is_ordered(p, 0, x_run);
    }
}

proof fn lemma_line_product_bound(y_rise: int, x_value: int)
    requires
        -RISE_BOUND < y_rise < RISE_BOUND,
        -X_BOUND < x_value < X_BOUND,
    ensures
        -0x20_0000_0000_0000 < y_rise * x_value < 0x20_0000_0000_0000,
{
    assert(-0x20_0000_0000_0000 < y_rise * x_value < 0x20_0000_0000_0000) by (nonlinear_arith)
        requires
            -0x10_0000 < y_rise < 0x10_0000,
            -0x2_0000_0000 < x_value < 0x2_0000_0000,
    ;
}

/// Division rounded towards negative infinity, for a positive divisor.
pub fn floor_div(n: i64, d: i64) -> (r: i64)
    requires
        d > 0,
    ensures
        r == n / d,
{
    proof {
        lemma_floor_div_bounds(n as int, d as int);
    }
    match n.checked_div_euclid(d) {
        Some(q) => q,
        None => 0,
    }
}

/// The y value at `x_value` of the line through the origin that rises `y_rise` over `x_run`.
pub fn line_y_value(y_rise: i64, x_run: i64, x_value: i64) -> (r: i64)
    requires
        line_args_ok(y_rise as int, x_run as int, x_value as int),
    ensures
        r == line_y(y_rise as int, x_run as int, x_value as int),
{
    proof {
        lemma_line_product_bound(y_rise as int, x_value as int);
    }
    floor_div(y_rise * x_value, x_run)
}

/// As `line_y_value`, with the line lifted by `y_offset`.
pub fn line_y_value_with_y_offset(y_rise: i64, x_run: i64, x_value: i64, y_offset: i64) -> (r: i64)
    requires
        line_args_ok(y_rise as int, x_run as int, x_value as int),
        -RISE_BOUND < y_offset < RISE_BOUND,
    ensures
        r == line_y(y_rise as int, x_run as int, x_value as int) + y_offset,
{
    proof {
        lemma_line_product_bound(y_rise as int, x_value as int);
        lemma_floor_div_bounds(y_rise * x_value, x_run as int);
    }
    let y_value = line_y_value(y_rise, x_run, x_value);
    y_value + y_offset
}

/// `line_y_value` on sixteen lanes.
pub fn line_y_value_x16(y_rise: [i64; 16], x_run: [i64; 16], x_value: [i64; 16]) -> (r: [i64; 16])
    requires
        forall|i: int| 0 <= i < 16 ==> #[trigger] line_args_ok(y_rise@[i] as int, x_run@[i] as int, x_value@[i] as int),
    ensures
        forall|i: int| 0 <= i < 16 ==> r@[i] == #[trigger] line_y(y_rise@[i] as int, x_run@[i] as int, x_value@[i] as int),
{
    let mut out = [0i64; 16];
    let mut i: usize = 0;
    while i < 16
        invariant
            i <= 16,
            forall|j: int| 0 <= j < 16 ==> #[trigger] line_args_ok(y_rise@[j] as int, x_run@[j] as int, x_value@[j] as int),
            forall|j: int| 0 <= j < i ==> out@[j] == #[trigger] line_y(y_rise@[j] as int, x_run@[j] as int, x_value@[j] as int),
        decreases 16 - i,
    {
        out[i] = line_y_value(y_rise[i], x_run[i], x_value[i]);
        i = i + 1;
    }
    out
}

/// `line_y_value_with_y_offset` on sixteen lanes.
pub fn line_y_value_with_y_offset_x16(
    y_rise: [i64; 16],
    x_run: [i64; 16],
    x_value: [i64; 16],
    y_offset: [i64; 16],
) -> (r: [i64; 16])
    requires
        forall|i: int| 0 <= i < 16 ==> #[trigger] line_args_ok(y_rise@[i] as int, x_run@[i] as int, x_value@[i] as int),
        forall|i: int| 0 <= i < 16 ==> -RISE_BOUND < #[trigger] y_offset@[i] < RISE_BOUND,
    ensures
        forall|i: int| 0 <= i < 16 ==> r@[i] == #[trigger] line_y(y_rise@[i] as int, x_run@[i] as int, x_value@[i] as int) + y_offset@[i],
{
    let mut out = [0i64; 16];
    let mut i: usize = 0;
    while i < 16
        invariant
            i <= 16,
            forall|j: int| 0 <= j < 16 ==> #[trigger] line_args_ok(y_rise@[j] as int, x_run@[j] as int, x_value@[j] as int),
            forall|j: int| 0 <= j < 16 ==> -RISE_BOUND < #[trigger] y_offset@[j] < RISE_BOUND,
            forall|j: int| 0 <= j < i ==> out@[j] == #[trigger] line_y(y_rise@[j] as int, x_run@[j] as int, x_value@[j] as int) + y_offset@[j],
        decreases 16 - i,
    {
        out[i] = line_y_value_with_y_offset(y_rise[i], x_run[i], x_value[i], y_offset[i]);
        i = i + 1;
    }
    out
}

/// The lane indexes `0, 1, ..., N - 1`.
pub fn indexes_u32<const N: usize>() -> (r: [u32; N])
    requires
        N <= u32::MAX,
    ensures
        forall|i: int| 0 <= i < N ==> #[trigger] r@[i] == i,
{
    let mut indexes = [0u32; N];
    let mut index: usize = 0;
    while index < N
        invariant
            index <= N <= u32::MAX,
            forall|i: int| 0 <= i < index ==> #[trigger] indexes@[i] == i,
        decreases N - index,
    {
        indexes[index] = index as u32;
        index = index + 1;
    }
    indexes
}

/// The frames `offset, offset + 1, ..., offset + 15`, wrapping past `u32::MAX` as the
/// lanes of a vector add do.
pub fn offsets_x16(offset: u32) -> (r: [u32; 16])
    ensures
        forall|i: int| 0 <= i < 16 ==> #[trigger] r@[i] == (offset + i) % 0x1_0000_0000,
{
    let indexes = indexes_u32::<16>();
    let mut out = [0u32; 16];
    let mut i: usize = 0;
    while i < 16
        invariant
            i <= 16,
            forall|j: int| 0 <= j < 16 ==> #[trigger] indexes@[j] == j,
            forall|j: int| 0 <= j < i ==> #[trigger] out@[j] == (offset + j) % 0x1_0000_0000,
        decreases 16 - i,
    {
        out[i] = offset.wrapping_add(indexes[i]);
        i = i + 1;
    }
    out
}

/// The three arrays side by side: entry `i` holds the `i`th entry of each.
pub fn zip3<A: Copy, B: Copy, C: Copy, const N: usize>(a: [A; N], b: [B; N], c: [C; N]) -> (r: Vec<(A, B, C)>)
    ensures
        r@.len() == N,
        forall|i: int| 0 <= i < N ==> #[trigger] r@[i] == (a@[i], b@[i], c@[i]),
{
    let mut out: Vec<(A, B, C)> = Vec::new();
    let mut i: usize = 0;
    while i < N
        invariant
            i <= N,
            out@.len() == i,
            forall|j: int| 0 <= j < i ==> #[trigger] out@[j] == (a@[j], b@[j], c@[j]),
        decreases N - i,
    {
        out.push((a[i], b[i], c[i]));
        i = i + 1;
    }
    out
}

/// `v` held within the range of an `i16`.
pub open spec fn clamp_to_i16(v: int) -> int {
    if v > i16::MAX { i16::MAX as int } else if v < i16::MIN { i16::MIN as int } else { v }
}

/// Narrows `v` to an `i16`, holding it at the nearer end of the range when it does not fit.
pub fn clamp_i32_to_i16(v: i32) -> (r: i16)
    ensures
        r == clamp_to_i16(v as int),
{
    if v > i16::MAX as i32 {
        i16::MAX
    } else if v < i16::MIN as i32 {
        i16::MIN
    } else {
        v as i16
    }
}

} // verus!
