//! Fixed-point scalars.
//!
//! Every quantity of the simulation (a coordinate, a radius, a volume, a
//! hormone level, a time) is a signed integer counting millionths of a unit:
//! the value `1.5` is stored as `1_500_000`. All arithmetic is exact integer
//! arithmetic with a stated rounding, so every contract in this crate is a
//! statement about mathematical integers.
use vstd::prelude::*;

verus! {

/// Raw value of the number one.
pub const SCALE: i64 = 1_000_000;

/// Largest magnitude of a coordinate, radius, volume, level or time that the
/// geometry accepts: one million units.
pub const LIMIT: i64 = 1_000_000_000_000;

/// Smallest distinguishable magnitude: a signed distance whose magnitude is
/// below it counts as zero.
pub const EPSILON: i64 = 1;

/// `x` lies within `[-LIMIT, LIMIT]`.
pub open spec fn in_limit(x: int) -> bool {
    -LIMIT <= x <= LIMIT
}

/// Division rounded toward zero, for a positive divisor.
pub open spec fn trunc_div(a: int, b: int) -> int {
    if a >= 0 {
        a / b
    } else {
        -((-a) / b)
    }
}

/// Rounding toward zero is odd: negating the dividend negates the quotient.
pub proof fn lemma_trunc_div_odd(a: int, b: int)
    requires
        b > 0,
    ensures
        trunc_div(-a, b) == -trunc_div(a, b),
{
    if a == 0 {
        assert(0int / b == 0) by (nonlinear_arith)
            requires
                b > 0,
        ;
    }
}

/// Division rounded toward negative infinity.
pub fn div_floor(a: i128, b: i128) -> (q: i128)
    requires
        b > 0,
        a > i128::MIN + b,
    ensures
        q == a as int / b as int,
{
    if a >= 0 {
        a / b
    } else {
        let na: i128 = -a;
        let t: i128 = (na + (b - 1)) / b;
        assert(-t == a as int / b as int) by (nonlinear_arith)
            requires
                t == (-a + b - 1) / (b as int),
                b > 0,
        ;
        -t
    }
}

/// Division rounded toward zero.
pub fn div_trunc(a: i128, b: i128) -> (q: i128)
    requires
        b > 0,
        a > i128::MIN,
    ensures
        q == trunc_div(a as int, b as int),
{
    if a >= 0 {
        a / b
    } else {
        let na: i128 = -a;
        let t: i128 = na / b;
        -t
    }
}

/// `r` is the integer square root of `n`, rounded down.
pub open spec fn is_sqrt_floor(n: int, r: int) -> bool {
    0 <= r && r * r <= n < (r + 1) * (r + 1)
}

/// The integer square root of `n`, rounded down.
pub open spec fn sqrt_floor(n: int) -> int {
    choose|r: int| is_sqrt_floor(n, r)
}

/// At most one integer is the rounded-down square root of `n`.
pub proof fn lemma_sqrt_floor_unique(n: int, r1: int, r2: int)
    requires
        is_sqrt_floor(n, r1),
        is_sqrt_floor(n, r2),
    ensures
        r1 == r2,
{
    if r1 < r2 {
        assert((r1 + 1) * (r1 + 1) <= r2 * r2) by (nonlinear_arith)
            requires
                0 <= r1,
                r1 + 1 <= r2,
        ;
    }
    if r2 < r1 {
        assert((r2 + 1) * (r2 + 1) <= r1 * r1) by (nonlinear_arith)
            requires
                0 <= r2,
                r2 + 1 <= r1,
        ;
    }
}

/// Whoever satisfies the defining inequalities is the square root.
pub proof fn lemma_sqrt_floor_is(n: int, r: int)
    requires
        is_sqrt_floor(n, r),
    ensures
        sqrt_floor(n) == r,
{
    lemma_sqrt_floor_unique(n, r, sqrt_floor(n));
}

/// Integer square root, rounded down.
pub fn isqrt(n: u128) -> (r: u64)
    ensures
        is_sqrt_floor(n as int, r as int),
        r == sqrt_floor(n as int),
{
    let mut lo: u128 = 0;
    let mut hi: u128 = 0x1_0000_0000_0000_0000;
    assert(n < hi * hi) by (nonlinear_arith)
        requires
            hi == 0x1_0000_0000_0000_0000,
            n <= u128::MAX,
    ;
    while hi - lo > 1
        invariant
            lo < hi <= 0x1_0000_0000_0000_0000,
            lo * lo <= n < hi * hi,
        decreases hi - lo,
    {
        let mid: u128 = lo + (hi - lo) / 2;
        assert(mid * mid <= u128::MAX) by (nonlinear_arith)
            requires
                0 <= mid < 0x1_0000_0000_0000_0000,
        ;
        if mid * mid <= n {
            lo = mid;
        } else {
            hi = mid;
        }
    }
    proof {
        lemma_sqrt_floor_is(n as int, lo as int);
    }
    lo as u64
}

/// `r` is the integer cube root of `n`, rounded down.
pub open spec fn is_cbrt_floor(n: int, r: int) -> bool {
    0 <= r && r * r * r <= n < (r + 1) * (r + 1) * (r + 1)
}

/// The integer cube root of `n`, rounded down.
pub open spec fn cbrt_floor(n: int) -> int {
    choose|r: int| is_cbrt_floor(n, r)
}

/// Cubing keeps the order of non-negative integers.
pub proof fn lemma_cube_monotone(a: int, b: int)
    requires
        0 <= a <= b,
    ensures
        a * a * a <= b * b * b,
{
    assert(a * a <= b * b) by (nonlinear_arith)
        requires
            0 <= a <= b,
    ;
    assert((a * a) * a <= (b * b) * b) by (nonlinear_arith)
        requires
            0 <= a <= b,
            0 <= a * a <= b * b,
    ;
}

/// At most one integer is the rounded-down cube root of `n`.
pub proof fn lemma_cbrt_floor_unique(n: int, r1: int, r2: int)
    requires
        is_cbrt_floor(n, r1),
        is_cbrt_floor(n, r2),
    ensures
        r1 == r2,
{
    if r1 < r2 {
        lemma_cube_monotone(r1 + 1, r2);
    }
    if r2 < r1 {
        lemma_cube_monotone(r2 + 1, r1);
    }
}

/// Whoever satisfies the defining inequalities is the cube root.
pub proof fn lemma_cbrt_floor_is(n: int, r: int)
    requires
        is_cbrt_floor(n, r),
    ensures
        cbrt_floor(n) == r,
{
    lemma_cbrt_floor_unique(n, r, cbrt_floor(n));
}

/// Every natural number has a rounded-down square root.
pub proof fn lemma_sqrt_floor_exists(n: int)
    requires
        n >= 0,
    ensures
        is_sqrt_floor(n, sqrt_floor(n)),
    decreases n,
{
    if n == 0 {
        assert(is_sqrt_floor(0, 0));
    } else {
        lemma_sqrt_floor_exists(n - 1);
        let r: int = sqrt_floor(n - 1);
        if (r + 1) * (r + 1) <= n {
            assert((r + 1) * (r + 1) < (r + 2) * (r + 2)) by (nonlinear_arith)
                requires
                    0 <= r,
            ;
            assert(is_sqrt_floor(n, r + 1));
        } else {
            assert(is_sqrt_floor(n, r));
        }
    }
}

/// Every natural number has a rounded-down cube root.
pub proof fn lemma_cbrt_floor_exists(n: int)
    requires
        n >= 0,
    ensures
        is_cbrt_floor(n, cbrt_floor(n)),
    decreases n,
{
    if n == 0 {
        assert(is_cbrt_floor(0, 0));
    } else {
        lemma_cbrt_floor_exists(n - 1);
        let r: int = cbrt_floor(n - 1);
        if (r + 1) * (r + 1) * (r + 1) <= n {
            lemma_cube_monotone(r + 1, r + 2);
            assert((r + 1) * (r + 1) * (r + 1) != (r + 2) * (r + 2) * (r + 2)) by (nonlinear_arith)
                requires
                    0 <= r,
            ;
            assert(is_cbrt_floor(n, r + 1));
        } else {
            assert(is_cbrt_floor(n, r));
        }
    }
}

/// Integer cube root, rounded down, of a number below `2^126`.
pub fn icbrt(n: u128) -> (r: u64)
    requires
        n < 0x4000_0000_0000_0000_0000_0000_0000_0000,
    ensures
        is_cbrt_floor(n as int, r as int),
        r == cbrt_floor(n as int),
        r < 0x400_0000_0000,
{
    let mut lo: u128 = 0;
    let mut hi: u128 = 0x400_0000_0000;
    assert(hi * hi * hi == 0x4000_0000_0000_0000_0000_0000_0000_0000) by (nonlinear_arith)
        requires
            hi == 0x400_0000_0000,
    ;
    while hi - lo > 1
        invariant
            lo < hi <= 0x400_0000_0000,
            lo * lo * lo <= n < hi * hi * hi,
        decreases hi - lo,
    {
        let mid: u128 = lo + (hi - lo) / 2;
        proof {
            lemma_cube_monotone(mid as int, 0x400_0000_0000);
            assert(0x400_0000_0000int * 0x400_0000_0000 * 0x400_0000_0000
                == 0x4000_0000_0000_0000_0000_0000_0000_0000) by (nonlinear_arith);
            assert(mid * mid <= 0x400_0000_0000 * 0x400_0000_0000) by (nonlinear_arith)
                requires
                    0 <= mid <= 0x400_0000_0000,
            ;
        }
        let sq: u128 = mid * mid;
        if sq * mid <= n {
            lo = mid;
        } else {
            hi = mid;
        }
    }
    proof {
        lemma_cbrt_floor_is(n as int, lo as int);
    }
    lo as u64
}

/// A product is bounded by the product of the bounds of its factors.
pub proof fn lemma_mul_bound(a: int, b: int, ma: int, mb: int)
    requires
        -ma <= a <= ma,
        -mb <= b <= mb,
    ensures
        -(ma * mb) <= a * b <= ma * mb,
{
    assert(-(ma * mb) <= a * b <= ma * mb) by (nonlinear_arith)
        requires
            -ma <= a <= ma,
            -mb <= b <= mb,
    ;
}

/// Flooring division keeps the order of its dividends.
pub proof fn lemma_div_floor_monotone(a: int, b: int, d: int)
    requires
        a <= b,
        d > 0,
    ensures
        a / d <= b / d,
{
    vstd::arithmetic::div_mod::lemma_div_is_ordered(a, b, d);
}

/// A quotient is bounded as its dividend is: `-m*d <= a <= m*d` gives
/// `-m <= a / d <= m`.
pub proof fn lemma_div_floor_bound(a: int, d: int, m: int)
    requires
        d > 0,
        -(m * d) <= a <= m * d,
    ensures
        -m <= a / d <= m,
{
    assert(-m <= a / d <= m) by (nonlinear_arith)
        requires
            d > 0,
            -(m * d) <= a <= m * d,
    ;
}

/// The exact product of two scalars.
pub fn mul_wide(a: i64, b: i64) -> (p: i128)
    ensures
        p == a as int * b as int,
{
    proof {
        lemma_mul_bound(a as int, b as int, 0x8000_0000_0000_0000, 0x8000_0000_0000_0000);
    }
    (a as i128) * (b as i128)
}

/// The exact difference of two scalars.
pub fn sub_wide(a: i64, b: i64) -> (d: i128)
    ensures
        d == a as int - b as int,
{
    (a as i128) - (b as i128)
}

/// The product of two scalars as a scalar, rounded toward zero.
pub open spec fn mul_fixed(a: int, b: int) -> int {
    trunc_div(a * b, SCALE as int)
}

/// Negating a factor negates the rounded product.
pub proof fn lemma_mul_fixed_odd(a: int, b: int)
    ensures
        mul_fixed(-a, b) == -mul_fixed(a, b),
        mul_fixed(a, -b) == -mul_fixed(a, b),
{
    assert((-a) * b == -(a * b) && a * (-b) == -(a * b)) by (nonlinear_arith);
    lemma_trunc_div_odd(a * b, SCALE as int);
}

/// The rounded product is at most `m` in magnitude where the exact product
/// is at most `m` times one.
pub proof fn lemma_mul_fixed_scaled_bound(a: int, b: int, m: int)
    requires
        -(m * SCALE) <= a * b <= m * SCALE,
    ensures
        -m <= mul_fixed(a, b) <= m,
{
    let p: int = a * b;
    if p >= 0 {
        lemma_div_floor_bound(p, SCALE as int, m);
    } else {
        assert(-(m * SCALE) <= -p <= m * SCALE);
        lemma_div_floor_bound(-p, SCALE as int, m);
    }
}

/// Multiplies two scalars, rounding toward zero.
pub fn fixed_mul(a: i128, b: i128) -> (p: i128)
    requires
        -0x4000_0000_0000_0000_0000_0000_0000_0000 <= a * b
            <= 0x4000_0000_0000_0000_0000_0000_0000_0000,
    ensures
        p == mul_fixed(a as int, b as int),
{
    div_trunc(a * b, SCALE as i128)
}

} // verus!
