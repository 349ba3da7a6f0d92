//! Exponential decay in fixed-point arithmetic.
//!
//! The decay of `x` approximates `e^(-x)` by `(1 - x / 2^24)^(2^24)`: one
//! subtraction and twenty-four squarings, carried out on fractions of `2^60`.
//! Every step keeps the order of its arguments, so the result never grows
//! with `x`, and the decay of zero is exactly one. Like `e^(-x)` itself, the
//! decay lies between `1 - x` and `1 / (1 + x)`.
use crate::shared::fixed::{lemma_div_floor_bound, lemma_div_floor_monotone, SCALE};
use vstd::prelude::*;

verus! {

/// The number one in the fractions that the squarings work on: `2^60`.
pub const DECAY_ONE: u128 = 0x1000_0000_0000_0000;

/// The number of squarings.
pub const DECAY_STEPS: u32 = 24;

/// `2^60 / 2^24`: what one unit of the exponent takes away from the seed.
pub const DECAY_SHIFT: u128 = 0x10_0000_0000;

/// Largest exponent that `exp_neg` takes: `2^90 - 1`.
pub const MAX_EXPONENT: u128 = 0x3ff_ffff_ffff_ffff_ffff_ffff;

/// The seed of the squarings: one less the `2^24`-th part of the exponent,
/// and nothing where that part exceeds one.
pub open spec fn decay_seed(x: int) -> int {
    let part = x * DECAY_SHIFT / (SCALE as int);
    if part >= DECAY_ONE {
        0
    } else {
        DECAY_ONE - part
    }
}

/// `z` squared `k` times, each square rounded down.
pub open spec fn decay_square(z: int, k: nat) -> int
    decreases k,
{
    if k == 0 {
        z
    } else {
        decay_square(z * z / (DECAY_ONE as int), (k - 1) as nat)
    }
}

/// The decay of the exponent `x`, which stands for `e^(-x)`.
pub open spec fn exp_neg_spec(x: int) -> int {
    decay_square(decay_seed(x), DECAY_STEPS as nat) * SCALE / (DECAY_ONE as int)
}

/// Squaring a fraction between zero and one gives such a fraction, and keeps
/// the order of two of them.
pub proof fn lemma_square_step(a: int, b: int)
    requires
        0 <= a <= b <= DECAY_ONE,
    ensures
        0 <= a * a / (DECAY_ONE as int) <= b * b / (DECAY_ONE as int) <= DECAY_ONE,
{
    assert(0 <= a * a <= b * b <= DECAY_ONE * DECAY_ONE) by (nonlinear_arith)
        requires
            0 <= a <= b <= DECAY_ONE,
    ;
    lemma_div_floor_monotone(0, a * a, DECAY_ONE as int);
    lemma_div_floor_monotone(a * a, b * b, DECAY_ONE as int);
    lemma_div_floor_bound(b * b, DECAY_ONE as int, DECAY_ONE as int);
}

/// Repeated squaring keeps fractions between zero and one in their order.
pub proof fn lemma_decay_square_monotone(a: int, b: int, k: nat)
    requires
        0 <= a <= b <= DECAY_ONE,
    ensures
        0 <= decay_square(a, k) <= decay_square(b, k) <= DECAY_ONE,
    decreases k,
{
    if k > 0 {
        lemma_square_step(a, b);
        lemma_decay_square_monotone(
            a * a / (DECAY_ONE as int),
            b * b / (DECAY_ONE as int),
            (k - 1) as nat,
        );
    }
}

/// One stays one, however often it is squared.
pub proof fn lemma_decay_square_one(k: nat)
    ensures
        decay_square(DECAY_ONE as int, k) == DECAY_ONE,
    decreases k,
{
    if k > 0 {
        assert(0x1000_0000_0000_0000int * 0x1000_0000_0000_0000 / 0x1000_0000_0000_0000
            == 0x1000_0000_0000_0000int) by (nonlinear_arith);
        lemma_decay_square_one((k - 1) as nat);
    }
}

/// The seed lies between zero and one and does not grow with the exponent.
pub proof fn lemma_decay_seed_monotone(x: int, y: int)
    requires
        0 <= x <= y,
    ensures
        0 <= decay_seed(y) <= decay_seed(x) <= DECAY_ONE,
{
    assert(0 <= x * DECAY_SHIFT <= y * DECAY_SHIFT) by (nonlinear_arith)
        requires
            0 <= x <= y,
    ;
    lemma_div_floor_monotone(0, x * DECAY_SHIFT, SCALE as int);
    lemma_div_floor_monotone(x * DECAY_SHIFT, y * DECAY_SHIFT, SCALE as int);
}

/// The decay of zero is exactly one.
pub proof fn lemma_exp_neg_zero()
    ensures
        exp_neg_spec(0) == SCALE,
{
    assert(decay_seed(0) == DECAY_ONE);
    lemma_decay_square_one(DECAY_STEPS as nat);
    assert(0x1000_0000_0000_0000int * 1_000_000 / 0x1000_0000_0000_0000 == 1_000_000int)
        by (nonlinear_arith);
}

/// The decay lies between zero and one and does not grow with the exponent.
pub proof fn lemma_exp_neg_monotone(x: int, y: int)
    requires
        0 <= x <= y,
    ensures
        0 <= exp_neg_spec(y) <= exp_neg_spec(x) <= SCALE,
{
    lemma_decay_seed_monotone(x, y);
    lemma_decay_square_monotone(decay_seed(y), decay_seed(x), DECAY_STEPS as nat);
    let zy: int = decay_square(decay_seed(y), DECAY_STEPS as nat);
    let zx: int = decay_square(decay_seed(x), DECAY_STEPS as nat);
    assert(0 <= zy * SCALE <= zx * SCALE <= SCALE * DECAY_ONE) by (nonlinear_arith)
        requires
            0 <= zy <= zx <= DECAY_ONE,
    ;
    lemma_div_floor_monotone(0, zy * SCALE, DECAY_ONE as int);
    lemma_div_floor_monotone(zy * SCALE, zx * SCALE, DECAY_ONE as int);
    lemma_div_floor_bound(zx * SCALE, DECAY_ONE as int, SCALE as int);
}

/// Two to the power of `k`.
pub open spec fn two_to(k: nat) -> int
    decreases k,
{
    if k == 0 {
        1
    } else {
        2 * two_to((k - 1) as nat)
    }
}

/// The number of the first squaring is two to the twenty-fourth.
proof fn lemma_two_to_steps()
    ensures
        two_to(DECAY_STEPS as nat) == 0x100_0000,
{
    reveal_with_fuel(two_to, 25);
}

/// One squaring at most doubles what a fraction lacks to one, and one more
/// for the rounding.
proof fn lemma_square_lacks(z: int)
    requires
        0 <= z <= DECAY_ONE,
    ensures
        z * z / (DECAY_ONE as int) >= DECAY_ONE - 2 * (DECAY_ONE - z) - 1,
{
    let p: int = DECAY_ONE as int;
    let d: int = p - z;
    let q: int = z * z / p;
    assert(z * z >= p * p - 2 * p * d) by (nonlinear_arith)
        requires
            z == p - d,
    ;
    vstd::arithmetic::div_mod::lemma_fundamental_div_mod(z * z, p);
    assert(p * q > z * z - p);
    assert(q >= p - 2 * d - 1) by (nonlinear_arith)
        requires
            p * q > p * p - 2 * p * d - p,
            p > 0,
    ;
}

/// Squaring `k` times multiplies what a fraction lacks to one by at most two
/// to the `k`, apart from the rounding.
proof fn lemma_decay_square_lacks(z: int, k: nat)
    requires
        0 <= z <= DECAY_ONE,
    ensures
        decay_square(z, k) >= DECAY_ONE - two_to(k) * (DECAY_ONE - z) - (two_to(k) - 1),
    decreases k,
{
    if k > 0 {
        let p: int = DECAY_ONE as int;
        let next: int = z * z / p;
        lemma_square_step(z, z);
        lemma_square_lacks(z);
        lemma_decay_square_lacks(next, (k - 1) as nat);
        let t: int = two_to((k - 1) as nat);
        assert(t >= 1) by {
            lemma_two_to_positive((k - 1) as nat);
        }
        assert(t * (p - next) <= t * (2 * (p - z) + 1)) by (nonlinear_arith)
            requires
                t >= 1,
                p - next <= 2 * (p - z) + 1,
        ;
        assert(t * (2 * (p - z) + 1) == (2 * t) * (p - z) + t) by (nonlinear_arith);
    }
}

/// Nothing stays nothing, however often it is squared.
proof fn lemma_decay_square_zero(k: nat)
    ensures
        decay_square(0, k) == 0,
    decreases k,
{
    if k > 0 {
        assert(0int * 0 / 0x1000_0000_0000_0000 == 0) by (nonlinear_arith);
        lemma_decay_square_zero((k - 1) as nat);
    }
}

/// Two to any power is at least one.
proof fn lemma_two_to_positive(k: nat)
    ensures
        two_to(k) >= 1,
    decreases k,
{
    if k > 0 {
        lemma_two_to_positive((k - 1) as nat);
    }
}

/// One squaring keeps a fraction below the reciprocal: where `z` times one
/// plus `a` is at most one, the square of `z` times one plus twice `a` is at
/// most one too.
proof fn lemma_square_reciprocal(z: int, a: int)
    requires
        0 <= z <= DECAY_ONE,
        0 <= a,
        z * (DECAY_ONE + a) <= DECAY_ONE * DECAY_ONE,
    ensures
        (z * z / (DECAY_ONE as int)) * (DECAY_ONE + 2 * a) <= DECAY_ONE * DECAY_ONE,
{
    let p: int = DECAY_ONE as int;
    let q: int = z * z / p;
    let w: int = z * (p + a);
    vstd::arithmetic::div_mod::lemma_fundamental_div_mod(z * z, p);
    assert(p * q <= z * z);
    assert(0 <= w) by (nonlinear_arith)
        requires
            w == z * (p + a),
            0 <= z,
            0 <= a,
            p > 0,
    ;
    assert(w * w <= (p * p) * (p * p)) by (nonlinear_arith)
        requires
            0 <= w <= p * p,
    ;
    assert(w * w == (z * z) * ((p + a) * (p + a))) by (nonlinear_arith)
        requires
            w == z * (p + a),
    ;
    assert(p * (p + 2 * a) <= (p + a) * (p + a)) by (nonlinear_arith);
    assert((z * z) * (p * (p + 2 * a)) <= (z * z) * ((p + a) * (p + a))) by (nonlinear_arith)
        requires
            p * (p + 2 * a) <= (p + a) * (p + a),
            0 <= z * z,
    ;
    assert(0 <= z * z) by (nonlinear_arith);
    let e: int = p + 2 * a;
    assert((p * q) * (p * e) <= (z * z) * (p * e)) by (nonlinear_arith)
        requires
            p * q <= z * z,
            0 <= p * e,
    ;
    assert(0 <= p * e) by (nonlinear_arith)
        requires
            p > 0,
            e >= 0,
    ;
    assert((p * q) * (p * e) == (p * p) * (q * e)) by (nonlinear_arith);
    assert((p * p) * (q * e) <= (p * p) * (p * p));
    assert(q * e <= p * p) by (nonlinear_arith)
        requires
            (p * p) * (q * e) <= (p * p) * (p * p),
            p * p > 0,
    ;
}

/// Squaring `k` times keeps a fraction below the reciprocal of one plus two
/// to the `k` times `a`.
proof fn lemma_decay_square_reciprocal(z: int, a: int, k: nat)
    requires
        0 <= z <= DECAY_ONE,
        0 <= a,
        z * (DECAY_ONE + a) <= DECAY_ONE * DECAY_ONE,
    ensures
        decay_square(z, k) * (DECAY_ONE + two_to(k) * a) <= DECAY_ONE * DECAY_ONE,
    decreases k,
{
    if k > 0 {
        let p: int = DECAY_ONE as int;
        lemma_square_step(z, z);
        lemma_square_reciprocal(z, a);
        lemma_decay_square_reciprocal(z * z / p, 2 * a, (k - 1) as nat);
        assert(two_to((k - 1) as nat) * (2 * a) == two_to(k) * a) by (nonlinear_arith)
            requires
                two_to(k) == 2 * two_to((k - 1) as nat),
        ;
    }
}

/// The decay lies between the two classical bounds of the exponential
/// function, `1 - x <= e^(-x) <= 1 / (1 + x)`, up to one step of the
/// resolution: it is at least one less the exponent, and its product with
/// one plus the exponent is at most one.
pub proof fn lemma_exp_neg_bounds(x: int)
    requires
        0 <= x,
    ensures
        exp_neg_spec(x) >= SCALE - x - 1,
        exp_neg_spec(x) * (SCALE + x - 1) <= SCALE * SCALE,
{
    let p: int = DECAY_ONE as int;
    let s: int = SCALE as int;
    let u: int = x * DECAY_SHIFT / s;
    lemma_exp_neg_monotone(x, x);
    let r: int = exp_neg_spec(x);
    assert(0 <= x * DECAY_SHIFT) by (nonlinear_arith)
        requires
            0 <= x,
            DECAY_SHIFT == 0x10_0000_0000,
    ;
    vstd::arithmetic::div_mod::lemma_fundamental_div_mod(x * DECAY_SHIFT, s);
    lemma_div_floor_monotone(0, x * DECAY_SHIFT, s);
    assert(s * u <= x * DECAY_SHIFT < s * u + s);
    if u >= p {
        assert(decay_seed(x) == 0);
        lemma_decay_square_zero(DECAY_STEPS as nat);
        assert(r == 0) by {
            assert(0int * s / p == 0) by (nonlinear_arith)
                requires
                    p > 0,
            ;
        }
        assert(x * 0x10_0000_0000 >= s * 0x1000_0000_0000_0000);
        assert(r * (s + x - 1) <= s * s) by (nonlinear_arith)
            requires
                r == 0,
        ;
    } else {
        let z0: int = p - u;
        assert(decay_seed(x) == z0);
        let z: int = decay_square(z0, DECAY_STEPS as nat);
        lemma_decay_square_monotone(z0, z0, DECAY_STEPS as nat);
        lemma_two_to_steps();
        vstd::arithmetic::div_mod::lemma_fundamental_div_mod(z * s, p);
        assert(0 <= z * s) by (nonlinear_arith)
            requires
                0 <= z,
                s > 0,
        ;
        assert(p * r <= z * s < p * r + p);
        // from below
        lemma_decay_square_lacks(z0, DECAY_STEPS as nat);
        assert(z >= p - 0x100_0000 * u - 0xff_ffff);
        assert(z * s >= (p - 0x100_0000 * u - 0xff_ffff) * s) by (nonlinear_arith)
            requires
                z >= p - 0x100_0000 * u - 0xff_ffff,
                s > 0,
        ;
        assert((p - 0x100_0000 * u - 0xff_ffff) * s == p * s - 0x100_0000 * (s * u) - 0xff_ffff * s)
            by (nonlinear_arith);
        assert(0x100_0000 * (x * 0x10_0000_0000) == x * p) by (nonlinear_arith)
            requires
                p == 0x1000_0000_0000_0000,
        ;
        assert(p * r + p > p * s - x * p - 0xff_ffff * s);
        assert(r >= s - x - 1) by (nonlinear_arith)
            requires
                p * r + p > p * s - x * p - 0xff_ffff * s,
                p == 0x1000_0000_0000_0000,
                s == 1_000_000,
        ;
        // from above
        assert(z0 * (p + u) <= p * p) by (nonlinear_arith)
            requires
                z0 == p - u,
        ;
        lemma_decay_square_reciprocal(z0, u, DECAY_STEPS as nat);
        let e: int = p + 0x100_0000 * u;
        assert(z * e <= p * p);
        assert((p * r) * e <= (z * s) * e) by (nonlinear_arith)
            requires
                p * r <= z * s,
                e >= 0,
        ;
        assert((z * s) * e == s * (z * e)) by (nonlinear_arith);
        assert(s * (z * e) <= s * (p * p)) by (nonlinear_arith)
            requires
                z * e <= p * p,
                s > 0,
        ;
        assert((p * r) * e == p * (r * e)) by (nonlinear_arith);
        assert(r * e <= s * p) by (nonlinear_arith)
            requires
                p * (r * e) <= s * (p * p),
                p > 0,
        ;
        assert(s * e >= p * (s + x - 1)) by (nonlinear_arith)
            requires
                e == p + 0x100_0000 * u,
                s * u + s > x * 0x10_0000_0000,
                p == 0x1000_0000_0000_0000,
                s == 1_000_000,
        ;
        assert(r * (p * (s + x - 1)) <= r * (s * e)) by (nonlinear_arith)
            requires
                s * e >= p * (s + x - 1),
                r >= 0,
        ;
        assert(r * (s * e) == s * (r * e)) by (nonlinear_arith);
        assert(s * (r * e) <= s * (s * p)) by (nonlinear_arith)
            requires
                r * e <= s * p,
                s > 0,
        ;
        assert(r * (p * (s + x - 1)) == p * (r * (s + x - 1))) by (nonlinear_arith);
        assert(s * (s * p) == p * (s * s)) by (nonlinear_arith);
        assert(r * (s + x - 1) <= s * s) by (nonlinear_arith)
            requires
                p * (r * (s + x - 1)) <= p * (s * s),
                p > 0,
        ;
    }
}

/// Computes the decay of an exponent.
pub fn exp_neg(x: u128) -> (d: i64)
    requires
        x <= MAX_EXPONENT,
    ensures
        d == exp_neg_spec(x as int),
        0 <= d <= SCALE,
{
    proof {
        lemma_exp_neg_monotone(x as int, x as int);
        assert(x * DECAY_SHIFT <= 0x3ff_ffff_ffff_ffff_ffff_ffff * 0x10_0000_0000) by (nonlinear_arith)
            requires
                x <= 0x3ff_ffff_ffff_ffff_ffff_ffff,
                DECAY_SHIFT == 0x10_0000_0000,
        ;
        lemma_decay_seed_monotone(x as int, x as int);
    }
    let part: u128 = x * DECAY_SHIFT / 1_000_000;
    let mut z: u128 = if part >= DECAY_ONE {
        0
    } else {
        DECAY_ONE - part
    };
    let ghost seed = decay_seed(x as int);
    let mut k: u32 = 0;
    while k < DECAY_STEPS
        invariant
            k <= DECAY_STEPS,
            0 <= z <= DECAY_ONE,
            decay_square(z as int, (DECAY_STEPS - k) as nat) == decay_square(
                seed,
                DECAY_STEPS as nat,
            ),
        decreases DECAY_STEPS - k,
    {
        proof {
            lemma_square_step(z as int, z as int);
            assert(z * z <= DECAY_ONE * DECAY_ONE) by (nonlinear_arith)
                requires
                    0 <= z <= DECAY_ONE,
            ;
        }
        z = z * z / DECAY_ONE;
        k = k + 1;
    }
    proof {
        assert(z * SCALE <= DECAY_ONE * SCALE) by (nonlinear_arith)
            requires
                0 <= z <= DECAY_ONE,
        ;
    }
    let d: u128 = z * 1_000_000 / DECAY_ONE;
    d as i64
}

} // verus!
