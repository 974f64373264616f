//! Fixed-point scalars: the unit, the representable ranges, and rounding.
//!
//! Every length, speed and acceleration is a signed integer count of raw steps,
//! `UNIT` of which make one world unit; elapsed time is a count of microseconds.
//! Quotients round toward zero, and values that leave their range stay at its
//! edge.

use vstd::prelude::*;

verus! {

/// Raw steps per world unit: a raw value `v` stands for `v / UNIT` world units.
/// A velocity is a count of raw steps per second.
pub const UNIT: i64 = 1000;

/// Microseconds per second: elapsed time is a count of microseconds.
pub const MICROS_PER_SECOND: i64 = 1_000_000;

/// Largest magnitude of a position coordinate.
pub const COORD_LIMIT: i64 = 100_000_000;

/// Largest magnitude of a velocity or acceleration component.
pub const SPEED_LIMIT: i64 = 100_000_000;

/// Largest radius of a body.
pub const RADIUS_LIMIT: i64 = 100_000;

/// The quotient `a / b` rounded toward zero, for a positive divisor.
pub open spec fn trunc_div(a: int, b: int) -> int {
    if a >= 0 {
        a / b
    } else {
        -((-a) / b)
    }
}

/// The magnitude of `v`.
pub open spec fn magnitude(v: int) -> int {
    if v < 0 {
        -v
    } else {
        v
    }
}

/// `v` held to the range `[-limit, limit]`.
pub open spec fn clamp(v: int, limit: int) -> int {
    if v < -limit {
        -limit
    } else if v > limit {
        limit
    } else {
        v
    }
}

/// Holds a wide intermediate value to `[-limit, limit]`.
pub fn saturate(v: i128, limit: i64) -> (r: i64)
    requires
        limit >= 0,
    ensures
        r == clamp(v as int, limit as int),
{
    if v < -(limit as i128) {
        -limit
    } else if v > limit as i128 {
        limit
    } else {
        v as i64
    }
}

/// The rounded quotient misses the exact one by less than one step, on the side of zero.
pub proof fn lemma_trunc_div_error(a: int, b: int)
    requires
        b > 0,
    ensures
        a >= 0 ==> 0 <= a - b * trunc_div(a, b) < b,
        a <= 0 ==> -b < a - b * trunc_div(a, b) <= 0,
{
    if a >= 0 {
        vstd::arithmetic::div_mod::lemma_fundamental_div_mod(a, b);
        vstd::arithmetic::div_mod::lemma_mod_bound(a, b);
    } else {
        vstd::arithmetic::div_mod::lemma_fundamental_div_mod(-a, b);
        vstd::arithmetic::div_mod::lemma_mod_bound(-a, b);
        assert(b * (-((-a) / b)) == -(b * ((-a) / b))) by (nonlinear_arith);
    }
}

/// Where `b` divides `a`, the rounded quotient is the exact one.
pub proof fn lemma_trunc_div_exact(a: int, b: int, q: int)
    requires
        b > 0,
        a == b * q,
    ensures
        trunc_div(a, b) == q,
{
    lemma_trunc_div_error(a, b);
    let t = trunc_div(a, b);
    assert(b * q - b * t == b * (q - t)) by (nonlinear_arith);
    assert(q - t == 0) by (nonlinear_arith)
        requires
            b > 0,
            -b < b * (q - t) < b,
    ;
}

/// The rounded quotient is no larger in magnitude than the dividend.
pub proof fn lemma_trunc_div_bound(a: int, b: int, m: int)
    requires
        b > 0,
        -m <= a <= m,
    ensures
        -m <= trunc_div(a, b) <= m,
{
    lemma_trunc_div_error(a, b);
    let t = trunc_div(a, b);
    if a >= 0 {
        assert(0 <= t <= a) by (nonlinear_arith)
            requires
                b > 0,
                a >= 0,
                0 <= a - b * t < b,
        ;
    } else {
        assert(a <= t <= 0) by (nonlinear_arith)
            requires
                b > 0,
                a <= 0,
                -b < a - b * t <= 0,
        ;
    }
}

/// A product is bounded by the product of the bounds of its factors.
pub proof fn lemma_mul_bound(a: int, b: int, la: int, lb: int)
    by (nonlinear_arith)
    requires
        -la <= a <= la,
        -lb <= b <= lb,
    ensures
        -(la * lb) <= a * b <= la * lb,
{
}

/// A square is never negative, and positive off zero.
pub proof fn lemma_square_sign(a: int)
    by (nonlinear_arith)
    ensures
        a * a >= 0,
        a != 0 ==> a * a > 0,
{
}

} // verus!
