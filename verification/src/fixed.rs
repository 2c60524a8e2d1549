//! Saturating fixed-point scalar arithmetic.
//!
//! Every coordinate, direction component, colour channel and ray parameter in
//! this crate is a signed 16.16 fixed-point number: an `i64` holding the real
//! value times [`FX_ONE`]. All operations saturate at `±i64::MAX`, so no
//! computation can overflow; a value driven out of range is clamped, which
//! plays the role the original non-finite floats played: downstream logic
//! treats implausible geometry as a miss.

use vstd::prelude::*;

verus! {

/// The fixed-point unit: this many raw ticks represent the real number 1.
pub const FX_ONE: i64 = 65536;

/// Largest representable fixed-point magnitude (saturation bound).
pub const FX_MAX: i64 = i64::MAX;

/// Saturation of a mathematical integer into `[-FX_MAX, FX_MAX]`.
pub open spec fn sat64(x: int) -> int {
    if x > FX_MAX as int {
        FX_MAX as int
    } else if x < -(FX_MAX as int) {
        -(FX_MAX as int)
    } else {
        x
    }
}

/// Division truncating toward zero (the rounding executable code uses),
/// for a positive divisor.
pub open spec fn tdiv(n: int, d: int) -> int
    recommends
        d > 0,
{
    if n >= 0 {
        n / d
    } else {
        -((-n) / d)
    }
}

/// Saturating fixed-point addition.
pub open spec fn fx_add_s(a: int, b: int) -> int {
    sat64(a + b)
}

/// Saturating fixed-point subtraction.
pub open spec fn fx_sub_s(a: int, b: int) -> int {
    sat64(a - b)
}

/// Saturating fixed-point negation.
pub open spec fn fx_neg_s(a: int) -> int {
    sat64(-a)
}

/// Saturating fixed-point multiplication: `a * b / FX_ONE`, truncated.
pub open spec fn fx_mul_s(a: int, b: int) -> int {
    sat64(tdiv(a * b, FX_ONE as int))
}

/// Saturating fixed-point division by a positive divisor: `a * FX_ONE / b`.
pub open spec fn fx_div_s(a: int, b: int) -> int
    recommends
        b > 0,
{
    sat64(tdiv(a * (FX_ONE as int), b))
}

/// Clamping into a closed range.
pub open spec fn clamp_s(x: int, lo: int, hi: int) -> int
    recommends
        lo <= hi,
{
    if x < lo {
        lo
    } else if x > hi {
        hi
    } else {
        x
    }
}

/// `r` is the integer square root of `y`.
pub open spec fn is_isqrt(y: int, r: int) -> bool {
    0 <= r && r * r <= y && y < (r + 1) * (r + 1)
}

/// The integer square root of a non-negative integer.
pub open spec fn isqrt_s(y: int) -> int
    recommends
        y >= 0,
{
    choose|r: int| is_isqrt(y, r)
}

/// Fixed-point square root of a non-negative fixed-point number:
/// `sqrt(x / FX_ONE) * FX_ONE` rounded down is the integer square root of
/// `x * FX_ONE`.
pub open spec fn fx_sqrt_s(x: int) -> int
    recommends
        x >= 0,
{
    isqrt_s(x * (FX_ONE as int))
}

/// The integer square root is unique.
pub proof fn lemma_isqrt_unique(y: int, a: int, b: int)
    by (nonlinear_arith)
    requires
        0 <= a,
        a * a <= y,
        y < (a + 1) * (a + 1),
        0 <= b,
        b * b <= y,
        y < (b + 1) * (b + 1),
    ensures
        a == b,
{
}

/// A fixed-point square is never negative.
pub proof fn lemma_fx_square_nonneg(a: int)
    ensures
        fx_mul_s(a, a) >= 0,
{
    assert(a * a >= 0) by (nonlinear_arith);
    assert(tdiv(a * a, FX_ONE as int) >= 0);
}

/// Multiplying a non-negative value by a factor between zero and one cannot
/// increase it, and keeps it non-negative: attenuation never adds energy.
pub proof fn lemma_fx_mul_attenuates(a: int, x: int)
    requires
        0 <= a <= FX_ONE as int,
        0 <= x,
    ensures
        0 <= fx_mul_s(a, x) <= x,
{
    assert(0 <= a * x <= (FX_ONE as int) * x) by (nonlinear_arith)
        requires
            0 <= a <= FX_ONE as int,
            0 <= x,
    ;
    assert(tdiv(a * x, FX_ONE as int) == (a * x) / (FX_ONE as int));
    assert((a * x) / (FX_ONE as int) <= ((FX_ONE as int) * x) / (FX_ONE as int)) by {
        vstd::arithmetic::div_mod::lemma_div_is_ordered(a * x, (FX_ONE as int) * x, FX_ONE as int);
    }
    assert(((FX_ONE as int) * x) / (FX_ONE as int) == x) by {
        vstd::arithmetic::div_mod::lemma_div_multiples_vanish(x, FX_ONE as int);
    }
}

/// A product of two `i64`-range factors stays well inside the `i128` range.
proof fn lemma_mul_i64_in_i128(a: int, b: int)
    by (nonlinear_arith)
    requires
        -0x8000_0000_0000_0000 <= a <= 0x7fff_ffff_ffff_ffff,
        -0x8000_0000_0000_0000 <= b <= 0x7fff_ffff_ffff_ffff,
    ensures
        -0x4000_0000_0000_0000_0000_0000_0000_0000 <= a * b
            <= 0x4000_0000_0000_0000_0000_0000_0000_0000,
{
}

/// Clamps a wide intermediate into the saturated fixed-point range.
fn clamp128(s: i128) -> (r: i64)
    ensures
        r as int == sat64(s as int),
{
    if s > FX_MAX as i128 {
        FX_MAX
    } else if s < -(FX_MAX as i128) {
        -FX_MAX
    } else {
        s as i64
    }
}

/// Truncating division of a wide intermediate by a positive divisor.
fn div_trunc(n: i128, d: i128) -> (r: i128)
    requires
        d > 0,
        n > i128::MIN,
    ensures
        r as int == tdiv(n as int, d as int),
{
    if n >= 0 {
        ((n as u128) / (d as u128)) as i128
    } else {
        let m: u128 = (-n) as u128;
        let q: u128 = m / (d as u128);
        -(q as i128)
    }
}

/// Saturating fixed-point addition.
pub fn fx_add(a: i64, b: i64) -> (r: i64)
    ensures
        r as int == fx_add_s(a as int, b as int),
{
    let s: i128 = a as i128 + b as i128;
    clamp128(s)
}

/// Saturating fixed-point subtraction.
pub fn fx_sub(a: i64, b: i64) -> (r: i64)
    ensures
        r as int == fx_sub_s(a as int, b as int),
{
    let s: i128 = a as i128 - b as i128;
    clamp128(s)
}

/// Saturating fixed-point negation.
pub fn fx_neg(a: i64) -> (r: i64)
    ensures
        r as int == fx_neg_s(a as int),
{
    if a == i64::MIN {
        FX_MAX
    } else {
        -a
    }
}

/// Saturating fixed-point multiplication.
pub fn fx_mul(a: i64, b: i64) -> (r: i64)
    ensures
        r as int == fx_mul_s(a as int, b as int),
{
    proof {
        lemma_mul_i64_in_i128(a as int, b as int);
    }
    let p: i128 = (a as i128) * (b as i128);
    let q: i128 = div_trunc(p, FX_ONE as i128);
    clamp128(q)
}

/// Saturating fixed-point division by a positive divisor.
pub fn fx_div(a: i64, b: i64) -> (r: i64)
    requires
        b > 0,
    ensures
        r as int == fx_div_s(a as int, b as int),
{
    proof {
        lemma_mul_i64_in_i128(a as int, FX_ONE as int);
    }
    let p: i128 = (a as i128) * (FX_ONE as i128);
    let q: i128 = div_trunc(p, b as i128);
    clamp128(q)
}

/// Saturation output is always inside the saturated range.
pub proof fn lemma_sat64_bounds(x: int)
    ensures
        -(FX_MAX as int) <= sat64(x) <= FX_MAX as int,
{
}

/// Saturation is an odd function.
pub proof fn lemma_sat64_odd(x: int)
    ensures
        sat64(-x) == -sat64(x),
{
}

/// Truncating division is odd in the dividend.
pub proof fn lemma_tdiv_odd(n: int, d: int)
    requires
        d > 0,
    ensures
        tdiv(-n, d) == -tdiv(n, d),
{
}

/// Negating one factor negates a saturating fixed-point product.
pub proof fn lemma_fx_neg_mul(a: int, b: int)
    requires
        -(FX_MAX as int) <= a <= FX_MAX as int,
    ensures
        fx_mul_s(fx_neg_s(a), b) == fx_neg_s(fx_mul_s(a, b)),
{
    assert(fx_neg_s(a) == -a);
    assert((-a) * b == -(a * b)) by (nonlinear_arith);
    lemma_tdiv_odd(a * b, FX_ONE as int);
    lemma_sat64_odd(tdiv(a * b, FX_ONE as int));
    lemma_sat64_bounds(tdiv(a * b, FX_ONE as int));
    lemma_sat64_odd(sat64(tdiv(a * b, FX_ONE as int)));
}

/// Negating both addends negates a saturating fixed-point sum.
pub proof fn lemma_fx_add_neg(p: int, q: int)
    requires
        -(FX_MAX as int) <= p <= FX_MAX as int,
        -(FX_MAX as int) <= q <= FX_MAX as int,
    ensures
        fx_add_s(fx_neg_s(p), fx_neg_s(q)) == fx_neg_s(fx_add_s(p, q)),
{
    lemma_sat64_odd(p + q);
    lemma_sat64_bounds(p + q);
    lemma_sat64_odd(sat64(p + q));
}

/// Bounds on truncating division: the quotient keeps the sign of the
/// dividend and never grows in magnitude.
pub proof fn lemma_tdiv_bounds(a: int, n: int)
    requires
        n > 0,
    ensures
        a >= 0 ==> 0 <= tdiv(a, n) <= a,
        a < 0 ==> a <= tdiv(a, n) <= 0,
{
    if a >= 0 {
        vstd::arithmetic::div_mod::lemma_div_pos_is_pos(a, n);
        vstd::arithmetic::div_mod::lemma_div_nonincreasing(a, n);
    } else {
        vstd::arithmetic::div_mod::lemma_div_pos_is_pos(-a, n);
        vstd::arithmetic::div_mod::lemma_div_nonincreasing(-a, n);
    }
}

/// Plain truncating integer division by a positive count (no fixed-point
/// rescaling), as used to average sample sums and to halve jitter ranges.
pub fn fx_idiv(a: i64, n: i64) -> (r: i64)
    requires
        n > 0,
    ensures
        r as int == tdiv(a as int, n as int),
{
    proof {
        lemma_tdiv_bounds(a as int, n as int);
    }
    let q: i128 = div_trunc(a as i128, n as i128);
    q as i64
}

/// Integer square root by bisection, for inputs below `2^96`.
fn isqrt_u128(y: u128) -> (r: u128)
    requires
        (y as int) < 0x1_0000_0000_0000_0000_0000_0000,
    ensures
        is_isqrt(y as int, r as int),
        r <= 0x1_0000_0000_0000,
{
    let mut lo: u128 = 0;
    let mut hi: u128 = 0x1_0000_0000_0001;
    proof {
        assert((0x1_0000_0000_0001 as int) * (0x1_0000_0000_0001 as int)
            > 0x1_0000_0000_0000_0000_0000_0000) by (nonlinear_arith);
    }
    while lo + 1 < hi
        invariant
            lo < hi,
            hi <= 0x1_0000_0000_0001,
            lo * lo <= y,
            (y as int) < (hi as int) * (hi as int),
        decreases hi - lo,
    {
        let mid: u128 = lo + (hi - lo) / 2;
        proof {
            assert((mid as int) * (mid as int) <= 0x1_0000_0000_0001 * 0x1_0000_0000_0001
                < u128::MAX) by (nonlinear_arith)
                requires
                    0 <= mid <= 0x1_0000_0000_0001,
            ;
        }
        if mid * mid <= y {
            lo = mid;
        } else {
            hi = mid;
        }
    }
    proof {
        assert(hi == lo + 1);
    }
    lo
}

/// Fixed-point square root of a non-negative value.
pub fn fx_sqrt(x: i64) -> (r: i64)
    requires
        x >= 0,
    ensures
        r as int == fx_sqrt_s(x as int),
        is_isqrt(x * (FX_ONE as int), r as int),
        r >= 0,
{
    proof {
        assert((x as int) * (FX_ONE as int) < 0x1_0000_0000_0000_0000_0000_0000)
            by (nonlinear_arith)
            requires
                0 <= x <= 0x7fff_ffff_ffff_ffff,
        ;
    }
    let y: u128 = (x as u128) * (FX_ONE as u128);
    let root: u128 = isqrt_u128(y);
    proof {
        assert(is_isqrt(y as int, root as int));
        let picked = isqrt_s(y as int);
        assert(is_isqrt(y as int, picked)) by {
            assert(exists|r: int| is_isqrt(y as int, r)) by {
                assert(is_isqrt(y as int, root as int));
            }
        }
        lemma_isqrt_unique(y as int, picked, root as int);
    }
    root as i64
}

/// Clamps a fixed-point value into a closed range.
pub fn fx_clamp(x: i64, lo: i64, hi: i64) -> (r: i64)
    requires
        lo <= hi,
    ensures
        r as int == clamp_s(x as int, lo as int, hi as int),
{
    if x < lo {
        lo
    } else if x > hi {
        hi
    } else {
        x
    }
}

} // verus!
