//! Signed 16.16 fixed-point arithmetic: saturation, truncating division,
//! and integer square roots, with exact specifications.

use vstd::prelude::*;

verus! {

/// One whole unit in 16.16 fixed point.
pub const SCALE: i64 = 65536;

/// Absolute value over the mathematical integers.
pub open spec fn iabs(x: int) -> int {
    if x < 0 {
        -x
    } else {
        x
    }
}

/// Saturate a mathematical integer into the `i64` range.
pub open spec fn sat64(x: int) -> int {
    if x > i64::MAX {
        i64::MAX as int
    } else if x < i64::MIN {
        i64::MIN as int
    } else {
        x
    }
}

/// Division truncating toward zero, as machine division does.
/// Meaningful only for `d != 0`.
pub open spec fn tdiv(n: int, d: int) -> int {
    let q = iabs(n) / iabs(d);
    if (n < 0) != (d < 0) {
        -q
    } else {
        q
    }
}

/// The 16.16 fixed-point product: the exact product rescaled by `SCALE`,
/// truncated toward zero and saturated to the `i64` range.
pub open spec fn fx_mul(a: int, b: int) -> int {
    sat64(tdiv(a * b, SCALE as int))
}

/// The 16.16 fixed-point quotient, truncated toward zero and saturated.
/// Meaningful only for `b != 0`.
pub open spec fn fx_div(a: int, b: int) -> int {
    sat64(tdiv(a * SCALE, b))
}

/// `r` is the floor of the square root of `n`.
pub open spec fn is_sqrt_floor(n: int, r: int) -> bool {
    &&& 0 <= r
    &&& r * r <= n
    &&& n < (r + 1) * (r + 1)
}

/// The floor of the square root of a nonnegative integer.
pub open spec fn sqrt_floor(n: int) -> int {
    choose|r: int| is_sqrt_floor(n, r)
}

/// Every nonnegative integer has a square-root floor.
pub proof fn lemma_sqrt_floor_exists(n: int)
    requires
        0 <= n,
    ensures
        is_sqrt_floor(n, sqrt_floor(n)),
    decreases n,
{
    if n == 0 {
        assert(is_sqrt_floor(0, 0));
    } else {
        lemma_sqrt_floor_exists(n - 1);
        let r = sqrt_floor(n - 1);
        if n < (r + 1) * (r + 1) {
            assert(is_sqrt_floor(n, r));
        } else {
            assert(n == (r + 1) * (r + 1));
            assert((r + 1) * (r + 1) < (r + 2) * (r + 2)) by (nonlinear_arith)
                requires 0 <= r;
            assert(is_sqrt_floor(n, r + 1));
        }
    }
}

/// The square-root floor is unique.
pub proof fn lemma_sqrt_floor_unique(n: int, r1: int, r2: int)
    requires
        is_sqrt_floor(n, r1),
        is_sqrt_floor(n, r2),
    ensures
        r1 == r2,
{
    assert(r1 < r2 + 1 && r2 < r1 + 1) by (nonlinear_arith)
        requires
            0 <= r1,
            0 <= r2,
            r1 * r1 <= n,
            n < (r1 + 1) * (r1 + 1),
            r2 * r2 <= n,
            n < (r2 + 1) * (r2 + 1);
}

/// Saturation never increases an absolute value.
pub proof fn lemma_sat64_abs(x: int)
    ensures
        iabs(sat64(x)) <= iabs(x),
{
}

/// Bound on a truncating quotient from a bound on the numerator.
pub proof fn lemma_tdiv_abs_bound(n: int, d: int, m: int)
    requires
        d > 0,
        iabs(n) <= m,
    ensures
        iabs(tdiv(n, d)) <= m / d,
{
    vstd::arithmetic::div_mod::lemma_div_is_ordered(iabs(n), m, d);
    vstd::arithmetic::div_mod::lemma_div_pos_is_pos(iabs(n), d);
}

/// Truncating division is monotone in the numerator.
pub proof fn lemma_tdiv_monotone(n1: int, n2: int, d: int)
    requires
        d > 0,
        n1 <= n2,
    ensures
        tdiv(n1, d) <= tdiv(n2, d),
{
    vstd::arithmetic::div_mod::lemma_div_pos_is_pos(iabs(n1), d);
    vstd::arithmetic::div_mod::lemma_div_pos_is_pos(iabs(n2), d);
    if n1 >= 0 {
        vstd::arithmetic::div_mod::lemma_div_is_ordered(n1, n2, d);
    } else if n2 < 0 {
        vstd::arithmetic::div_mod::lemma_div_is_ordered(-n2, -n1, d);
    }
}

/// Truncating division leaves a remainder smaller than the divisor.
pub proof fn lemma_tdiv_rem(x: int, d: int)
    requires
        d > 0,
    ensures
        iabs(x - tdiv(x, d) * d) < d,
{
    let ax = iabs(x);
    vstd::arithmetic::div_mod::lemma_fundamental_div_mod(ax, d);
    vstd::arithmetic::div_mod::lemma_mod_division_less_than_divisor(ax, d);
    let q = ax / d;
    vstd::arithmetic::mul::lemma_mul_is_commutative(q, d);
    if x < 0 {
        assert((-q) * d == -(q * d)) by (nonlinear_arith);
    }
}

/// A positive common factor cancels from an inequality.
pub proof fn lemma_mul_cancel_le(c: int, x: int, y: int)
    by (nonlinear_arith)
    requires
        c > 0,
        c * x <= c * y,
    ensures
        x <= y,
{
}

/// Multiplying by one whole unit is the identity.
pub proof fn lemma_fx_mul_unit(x: int)
    requires
        i64::MIN <= x <= i64::MAX,
    ensures
        fx_mul(SCALE as int, x) == x,
{
    vstd::arithmetic::div_mod::lemma_div_multiples_vanish(iabs(x), SCALE as int);
    assert(iabs(65536 * x) == 65536 * iabs(x));
}

/// A fixed-point product with a factor of at most one is at most the
/// other factor, and stays nonnegative.
pub proof fn lemma_fx_mul_le(a: int, b: int)
    requires
        0 <= a <= SCALE,
        0 <= b,
    ensures
        0 <= fx_mul(a, b) <= b,
{
    vstd::arithmetic::mul::lemma_mul_inequality(a, SCALE as int, b);
    vstd::arithmetic::mul::lemma_mul_nonnegative(a, b);
    vstd::arithmetic::div_mod::lemma_div_is_ordered(a * b, SCALE as int * b, SCALE as int);
    vstd::arithmetic::div_mod::lemma_div_multiples_vanish(b, SCALE as int);
    vstd::arithmetic::div_mod::lemma_div_pos_is_pos(a * b, SCALE as int);
    assert(iabs(a * b) == a * b);
}

/// Multiplying by zero gives zero.
pub proof fn lemma_fx_mul_zero(a: int)
    ensures
        fx_mul(a, 0) == 0,
{
    vstd::arithmetic::div_mod::lemma_div_of0(SCALE as int);
    assert(a * 0 == 0) by (nonlinear_arith);
}

/// A fixed-point product of nonnegative factors is nonnegative.
pub proof fn lemma_fx_mul_nonneg(a: int, b: int)
    requires
        0 <= a,
        0 <= b,
    ensures
        0 <= fx_mul(a, b),
{
    vstd::arithmetic::mul::lemma_mul_nonnegative(a, b);
    vstd::arithmetic::div_mod::lemma_div_pos_is_pos(a * b, SCALE as int);
    assert(iabs(a * b) == a * b);
}

/// Bound on a fixed-point product from bounds on its factors.
pub proof fn lemma_fx_mul_abs_bound(a: int, b: int, m: int, n: int)
    requires
        iabs(a) <= m,
        iabs(b) <= n,
    ensures
        iabs(fx_mul(a, b)) <= (m * n) / (SCALE as int),
{
    lemma_mul_abs_bound(a, b, m, n);
    lemma_tdiv_abs_bound(a * b, SCALE as int, m * n);
    lemma_sat64_abs(tdiv(a * b, SCALE as int));
}

/// The widening product of two 64-bit values, which cannot overflow.
pub fn mul_i64_wide(a: i64, b: i64) -> (r: i128)
    ensures
        r as int == a * b,
        iabs(r as int) <= 0x4000_0000_0000_0000_0000_0000_0000_0000,
{
    proof {
        lemma_mul_abs_bound(
            a as int,
            b as int,
            0x8000_0000_0000_0000,
            0x8000_0000_0000_0000,
        );
    }
    (a as i128) * (b as i128)
}

/// Saturate a 128-bit value into the `i64` range.
pub fn sat_narrow(x: i128) -> (r: i64)
    ensures
        r as int == sat64(x as int),
{
    if x > i64::MAX as i128 {
        i64::MAX
    } else if x < i64::MIN as i128 {
        i64::MIN
    } else {
        x as i64
    }
}

/// Saturating addition of two fixed-point values.
pub fn sat_add(a: i64, b: i64) -> (r: i64)
    ensures
        r as int == sat64(a + b),
{
    sat_narrow(a as i128 + b as i128)
}

/// Saturating subtraction of two fixed-point values.
pub fn sat_sub(a: i64, b: i64) -> (r: i64)
    ensures
        r as int == sat64(a - b),
{
    sat_narrow(a as i128 - b as i128)
}

/// Division of 128-bit values, truncating toward zero.
pub fn div_trunc(n: i128, d: i128) -> (r: i128)
    requires
        d != 0,
        n != i128::MIN,
        d != i128::MIN,
    ensures
        r as int == tdiv(n as int, d as int),
{
    let na: u128 = if n < 0 {
        (-n) as u128
    } else {
        n as u128
    };
    let da: u128 = if d < 0 {
        (-d) as u128
    } else {
        d as u128
    };
    let q: u128 = na / da;
    assert(q <= na) by (nonlinear_arith)
        requires q == na / da, da >= 1;
    if (n < 0) != (d < 0) {
        -(q as i128)
    } else {
        q as i128
    }
}

/// Bound on a product of bounded factors.
pub proof fn lemma_mul_abs_bound(a: int, b: int, x: int, y: int)
    by (nonlinear_arith)
    requires
        iabs(a) <= x,
        iabs(b) <= y,
    ensures
        iabs(a * b) <= x * y,
{
}

/// Fixed-point multiplication, truncating toward zero and saturating.
pub fn mul_fx(a: i64, b: i64) -> (r: i64)
    ensures
        r as int == fx_mul(a as int, b as int),
{
    proof {
        lemma_mul_abs_bound(
            a as int,
            b as int,
            0x8000_0000_0000_0000,
            0x8000_0000_0000_0000,
        );
    }
    let p: i128 = (a as i128) * (b as i128);
    sat_narrow(div_trunc(p, SCALE as i128))
}

/// Fixed-point division, truncating toward zero and saturating.
pub fn div_fx(a: i64, b: i64) -> (r: i64)
    requires
        b != 0,
    ensures
        r as int == fx_div(a as int, b as int),
{
    proof {
        lemma_mul_abs_bound(a as int, SCALE as int, 0x8000_0000_0000_0000, 65536);
    }
    let p: i128 = (a as i128) * (SCALE as i128);
    sat_narrow(div_trunc(p, b as i128))
}

/// Floor of the square root of a 128-bit value, by binary search.
pub fn isqrt(n: u128) -> (r: u64)
    ensures
        is_sqrt_floor(n as int, r as int),
        r as int == sqrt_floor(n as int),
{
    let mut lo: u128 = 0;
    let mut hi: u128 = u64::MAX as u128;
    assert((hi + 1) * (hi + 1) > n) by (nonlinear_arith)
        requires hi == u64::MAX, n <= u128::MAX;
    while lo < hi
        invariant
            lo <= hi,
            hi <= u64::MAX,
            lo * lo <= n,
            (hi + 1) * (hi + 1) > n,
        decreases hi - lo,
    {
        let mid: u128 = lo + (hi - lo + 1) / 2;
        assert(lo < mid <= hi);
        assert(mid * mid <= u128::MAX) by (nonlinear_arith)
            requires mid <= u64::MAX;
        if mid * mid <= n {
            lo = mid;
        } else {
            hi = mid - 1;
        }
    }
    proof {
        lemma_sqrt_floor_exists(n as int);
        lemma_sqrt_floor_unique(n as int, lo as int, sqrt_floor(n as int));
    }
    lo as u64
}

} // verus!
