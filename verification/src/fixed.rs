//! Fixed-point arithmetic: quantities are `i64` counts of thousandths.

use vstd::prelude::*;

verus! {

/// One unit, in thousandths.
pub const SCALE: i64 = 1_000;

/// Largest magnitude of a branch trait, a length, a priority or a coefficient.
pub const TRAIT_LIMIT: i64 = 1_000_000;

/// Largest magnitude of a resource pool; additions into a pool saturate here.
pub const POOL_LIMIT: i64 = 1_000_000_000_000_000_000;

/// `x` is a valid trait, length, priority or coefficient.
pub open spec fn within_trait_limit(x: int) -> bool {
    -TRAIT_LIMIT <= x <= TRAIT_LIMIT
}

/// `x` is a valid pool level.
pub open spec fn within_pool_limit(x: int) -> bool {
    -POOL_LIMIT <= x <= POOL_LIMIT
}

/// `x` limited to the interval from `-limit` to `limit`.
pub open spec fn clamp_spec(x: int, limit: int) -> int {
    if x > limit {
        limit
    } else if x < -limit {
        -limit
    } else {
        x
    }
}

/// Quotient rounded toward zero.
pub open spec fn trunc_div(n: int, d: int) -> int {
    if n >= 0 {
        n / d
    } else {
        -((-n) / d)
    }
}

/// Sum of a pool level and a change, saturating at the pool limit.
pub open spec fn pool_add_spec(level: int, change: int) -> int {
    clamp_spec(level + change, POOL_LIMIT as int)
}

/// The rational function `x (27 + x^2) / (27 + 9 x^2)` on thousandths, cut off at
/// plus and minus one unit outside three units: a bounded, odd, S-shaped curve
/// that stays within 2.5 percent of the hyperbolic tangent.
pub open spec fn squash_spec(x: int) -> int {
    if x >= 3 * SCALE {
        SCALE as int
    } else if x <= -3 * SCALE {
        -SCALE as int
    } else {
        trunc_div(x * (27 * SCALE * SCALE + x * x), 27 * SCALE * SCALE + 9 * x * x)
    }
}

/// A quotient rounded toward zero is no larger in magnitude than the quotient of
/// a bound on the dividend.
pub proof fn lemma_trunc_div_bounds(n: int, bound: int, d: int)
    requires
        d > 0,
        bound >= 0,
        -(bound * d) <= n <= bound * d,
    ensures
        -bound <= trunc_div(n, d) <= bound,
{
    vstd::arithmetic::div_mod::lemma_div_multiples_vanish(bound, d);
    assert(bound * d == d * bound) by (nonlinear_arith);
    if n >= 0 {
        vstd::arithmetic::div_mod::lemma_div_is_ordered(n, bound * d, d);
        vstd::arithmetic::div_mod::lemma_div_pos_is_pos(n, d);
    } else {
        vstd::arithmetic::div_mod::lemma_div_is_ordered(-n, bound * d, d);
        vstd::arithmetic::div_mod::lemma_div_pos_is_pos(-n, d);
    }
}

/// Limits `x` to the interval from `-limit` to `limit`.
pub fn clamp(x: i128, limit: i64) -> (r: i64)
    requires
        limit >= 0,
    ensures
        r == clamp_spec(x as int, limit as int),
{
    if x > limit as i128 {
        limit
    } else if x < -(limit as i128) {
        -limit
    } else {
        x as i64
    }
}

/// Divides rounding toward zero.
pub fn div_toward_zero(n: i128, d: i128) -> (r: i128)
    requires
        d > 0,
        n > i128::MIN,
    ensures
        r == trunc_div(n as int, d as int),
        n >= 0 ==> 0 <= r <= n,
        n < 0 ==> n <= r <= 0,
{
    if n >= 0 {
        let q: i128 = n / d;
        proof {
            vstd::arithmetic::div_mod::lemma_div_pos_is_pos(n as int, d as int);
            vstd::arithmetic::div_mod::lemma_div_is_ordered_by_denominator(n as int, 1, d as int);
        }
        q
    } else {
        let m: i128 = -n;
        let q: i128 = m / d;
        proof {
            vstd::arithmetic::div_mod::lemma_div_pos_is_pos(m as int, d as int);
            vstd::arithmetic::div_mod::lemma_div_is_ordered_by_denominator(m as int, 1, d as int);
        }
        -q
    }
}

/// Adds a change to a pool level, saturating at the pool limit.
pub fn pool_add(level: i64, change: i64) -> (r: i64)
    ensures
        r == pool_add_spec(level as int, change as int),
        within_pool_limit(r as int),
{
    clamp(level as i128 + change as i128, POOL_LIMIT)
}

/// Evaluates the squashing curve.
pub fn squash(x: i128) -> (r: i64)
    ensures
        r == squash_spec(x as int),
        -SCALE <= r <= SCALE,
{
    if x >= 3 * (SCALE as i128) {
        SCALE
    } else if x <= -3 * (SCALE as i128) {
        -SCALE
    } else {
        assert(0 <= x * x <= 9_000_000) by (nonlinear_arith)
            requires
                -3000 < x < 3000,
        ;
        let square: i128 = x * x;
        let upper: i128 = 27_000_000 + square;
        let lower: i128 = 27_000_000 + 9 * square;
        assert(-108_000_000_000 <= x * upper <= 108_000_000_000) by (nonlinear_arith)
            requires
                -3000 < x < 3000,
                27_000_000 <= upper <= 36_000_000,
        ;
        let numerator: i128 = x * upper;
        assert(9 * x * x == 9 * (x * x)) by (nonlinear_arith);
        let q: i128 = div_toward_zero(numerator, lower);
        proof {
            lemma_squash_bounded(x as int);
        }
        q as i64
    }
}

/// The squashing curve never leaves the interval from minus one unit to one unit.
pub proof fn lemma_squash_bounded(x: int)
    ensures
        -SCALE <= squash_spec(x) <= SCALE,
{
    if -3 * SCALE < x < 3 * SCALE {
        let s = x * x;
        let n = x * (27_000_000 + s);
        let d = 27_000_000 + 9 * s;
        assert(9 * x * x == 9 * s) by (nonlinear_arith)
            requires
                s == x * x,
        ;
        assert(0 <= s) by (nonlinear_arith)
            requires
                s == x * x,
        ;
        if x >= 0 {
            assert(0 <= n <= 1000 * d) by (nonlinear_arith)
                requires
                    n == x * (27_000_000 + s),
                    d == 27_000_000 + 9 * s,
                    s == x * x,
                    0 <= x < 3000,
            ;
            vstd::arithmetic::div_mod::lemma_div_is_ordered(n, 1000 * d, d);
            vstd::arithmetic::div_mod::lemma_div_multiples_vanish(1000, d);
            vstd::arithmetic::div_mod::lemma_div_pos_is_pos(n, d);
            assert(1000 * d == d * 1000) by (nonlinear_arith);
        } else {
            assert(0 <= -n <= 1000 * d) by (nonlinear_arith)
                requires
                    n == x * (27_000_000 + s),
                    d == 27_000_000 + 9 * s,
                    s == x * x,
                    -3000 < x < 0,
            ;
            vstd::arithmetic::div_mod::lemma_div_is_ordered(-n, 1000 * d, d);
            vstd::arithmetic::div_mod::lemma_div_multiples_vanish(1000, d);
            vstd::arithmetic::div_mod::lemma_div_pos_is_pos(-n, d);
            assert(1000 * d == d * 1000) by (nonlinear_arith);
        }
    }
}

} // verus!
