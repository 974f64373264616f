//! What an elastic collision conserves: momentum and kinetic energy.
//!
//! The exchange of velocities is computed on integers, with quotients rounded
//! toward zero. Where the quotients come out even, both quantities are conserved
//! exactly; otherwise they are conserved up to the rounding of one step per
//! velocity component. Velocities held back at the speed limit conserve neither.

use vstd::prelude::*;
use crate::body::BodyState;
use crate::collision::{impulse, rebound};
use crate::scalar::{
    lemma_mul_bound, lemma_square_sign, lemma_trunc_div_error, lemma_trunc_div_exact, magnitude,
    trunc_div, SPEED_LIMIT,
};
use crate::vector::Vector;

verus! {

/// The total momentum of two bodies.
pub open spec fn momentum(a: BodyState, b: BodyState) -> Vector {
    Vector {
        x: a.mass * a.velocity.x + b.mass * b.velocity.x,
        y: a.mass * a.velocity.y + b.mass * b.velocity.y,
    }
}

/// Twice the total kinetic energy of two bodies.
pub open spec fn twice_energy(a: BodyState, b: BodyState) -> int {
    a.mass * a.velocity.norm_sq() + b.mass * b.velocity.norm_sq()
}

/// The two bodies after their collision.
pub open spec fn after_collision(a: BodyState, b: BodyState) -> (BodyState, BodyState) {
    (a.with_velocity(rebound(a, b)), b.with_velocity(rebound(b, a)))
}

/// The rate at which `a` and `b` part: the inner product of their relative velocity
/// and the offset of their centers. It is negative while the two approach.
pub open spec fn parting_rate(a: BodyState, b: BodyState) -> int {
    a.velocity.minus(b.velocity).dot(a.position.minus(b.position))
}

/// The collision leaves both velocities within the speed limit, so that neither is
/// held back.
pub open spec fn within_speed_limit(a: BodyState, b: BodyState) -> bool {
    a.velocity.minus(impulse(a, b)).within(SPEED_LIMIT as int) && b.velocity.minus(
        impulse(b, a),
    ).within(SPEED_LIMIT as int)
}

/// The quotients of the exchange come out even: nothing is lost to rounding.
pub open spec fn divides_evenly(a: BodyState, b: BodyState) -> bool {
    let r = a.position.minus(b.position);
    let d = a.velocity.minus(b.velocity).dot(r);
    let den = (a.mass + b.mass) * r.norm_sq();
    &&& (2 * b.mass * d * r.x) % den == 0
    &&& (2 * b.mass * d * r.y) % den == 0
    &&& (2 * a.mass * d * r.x) % den == 0
    &&& (2 * a.mass * d * r.y) % den == 0
}

/// The most that rounding can change twice the kinetic energy: for each body, its
/// mass times two steps for each component of its new velocity and two steps more.
pub open spec fn energy_tolerance(a: BodyState, b: BodyState) -> int {
    let (a2, b2) = after_collision(a, b);
    a.mass * (2 * magnitude(a2.velocity.x) + 2 * magnitude(a2.velocity.y) + 2)
        + b.mass * (2 * magnitude(b2.velocity.x) + 2 * magnitude(b2.velocity.y) + 2)
}

/// What the proofs below know of one collision: the quantities of the exchange and
/// the equations that tie them, with the products of the model spelled out.
struct Exchange {
    m1: int,
    m2: int,
    k: int,
    d: int,
    rx: int,
    ry: int,
    v1x: int,
    v1y: int,
    v2x: int,
    v2y: int,
    q1x: int,
    q1y: int,
    q2x: int,
    q2y: int,
}

impl Exchange {
    /// The quantities of the collision of `a` with `b`.
    spec fn of(a: BodyState, b: BodyState) -> Exchange {
        let r = a.position.minus(b.position);
        Exchange {
            m1: a.mass,
            m2: b.mass,
            k: (a.mass + b.mass) * r.norm_sq(),
            d: a.velocity.minus(b.velocity).dot(r),
            rx: r.x,
            ry: r.y,
            v1x: a.velocity.x,
            v1y: a.velocity.y,
            v2x: b.velocity.x,
            v2y: b.velocity.y,
            q1x: impulse(a, b).x,
            q1y: impulse(a, b).y,
            q2x: impulse(b, a).x,
            q2y: impulse(b, a).y,
        }
    }

    /// The exact numerators of the four quotients.
    spec fn n1x(self) -> int {
        2 * self.m2 * self.d * self.rx
    }

    spec fn n1y(self) -> int {
        2 * self.m2 * self.d * self.ry
    }

    spec fn n2x(self) -> int {
        -(2 * self.m1 * self.d * self.rx)
    }

    spec fn n2y(self) -> int {
        -(2 * self.m1 * self.d * self.ry)
    }

    /// What rounding took from each quotient, times the denominator.
    spec fn e1x(self) -> int {
        self.n1x() - self.k * self.q1x
    }

    spec fn e1y(self) -> int {
        self.n1y() - self.k * self.q1y
    }

    spec fn e2x(self) -> int {
        self.n2x() - self.k * self.q2x
    }

    spec fn e2y(self) -> int {
        self.n2y() - self.k * self.q2y
    }

    /// The equations of the exchange: masses and denominator are positive, the
    /// denominator and the inner product are what the model says, and each
    /// remainder is smaller than the denominator and on the side of its numerator.
    spec fn holds(self) -> bool {
        &&& self.m1 > 0
        &&& self.m2 > 0
        &&& self.k > 0
        &&& self.k == (self.m1 + self.m2) * (self.rx * self.rx + self.ry * self.ry)
        &&& self.d == (self.v1x - self.v2x) * self.rx + (self.v1y - self.v2y) * self.ry
        &&& rounded(self.n1x(), self.e1x(), self.k)
        &&& rounded(self.n1y(), self.e1y(), self.k)
        &&& rounded(self.n2x(), self.e2x(), self.k)
        &&& rounded(self.n2y(), self.e2y(), self.k)
    }

    /// The parting rate after the exchange, no velocity held back.
    spec fn parting_rate_after(self) -> int {
        ((self.v1x - self.q1x) - (self.v2x - self.q2x)) * self.rx + ((self.v1y - self.q1y) - (
        self.v2y - self.q2y)) * self.ry
    }

    /// The change of the momentum along each axis.
    spec fn momentum_change_x(self) -> int {
        -(self.m1 * self.q1x + self.m2 * self.q2x)
    }

    spec fn momentum_change_y(self) -> int {
        -(self.m1 * self.q1y + self.m2 * self.q2y)
    }

    /// The most that rounding can change twice the kinetic energy.
    spec fn energy_slack(self) -> int {
        self.m1 * (2 * magnitude(self.v1x - self.q1x) + 1)
            + self.m1 * (2 * magnitude(self.v1y - self.q1y) + 1)
            + self.m2 * (2 * magnitude(self.v2x - self.q2x) + 1)
            + self.m2 * (2 * magnitude(self.v2y - self.q2y) + 1)
    }

    /// Nothing is lost to rounding.
    spec fn even(self) -> bool {
        self.e1x() == 0 && self.e1y() == 0 && self.e2x() == 0 && self.e2y() == 0
    }

    /// The change of twice the kinetic energy.
    spec fn energy_change(self) -> int {
        self.m1 * (self.q1x * self.q1x - 2 * (self.v1x * self.q1x)) + self.m1 * (self.q1y
            * self.q1y - 2 * (self.v1y * self.q1y)) + self.m2 * (self.q2x * self.q2x - 2 * (self.v2x
            * self.q2x)) + self.m2 * (self.q2y * self.q2y - 2 * (self.v2y * self.q2y))
    }
}

/// `e` is what rounding toward zero leaves of `n` over `k`.
spec fn rounded(n: int, e: int, k: int) -> bool {
    &&& n >= 0 ==> 0 <= e < k
    &&& n <= 0 ==> -k < e <= 0
}

/// A product of three factors may be grouped either way, and a sign moves through it.
proof fn lemma_regroup(c: int, d: int, r: int)
    by (nonlinear_arith)
    ensures
        c * d * r == c * (d * r),
        c * d * (-r) == -(c * d * r),
{
}

/// A factor spreads over a difference.
proof fn lemma_spread(a: int, b: int, c: int)
    by (nonlinear_arith)
    ensures
        a * (b - c) == a * b - a * c,
{
}

/// The two outer factors of a product of three change places.
proof fn lemma_turn(a: int, b: int, c: int)
    by (nonlinear_arith)
    ensures
        a * (b * c) == b * (a * c),
{
}

/// A sign moves out of a product.
proof fn lemma_negate(a: int, b: int)
    by (nonlinear_arith)
    ensures
        a * (-b) == -(a * b),
        (-a) * b == -(a * b),
{
}

/// The offset from `b` to `a` and the one from `a` to `b` have the same length and
/// give the same inner product with the relative velocity taken the same way round.
proof fn lemma_turned_round(rx: int, ry: int, wx: int, wy: int)
    by (nonlinear_arith)
    ensures
        (-rx) * (-rx) + (-ry) * (-ry) == rx * rx + ry * ry,
        (-wx) * (-rx) + (-wy) * (-ry) == wx * rx + wy * ry,
{
}

/// The equations of the exchange hold of every two valid bodies with distinct centers.
proof fn lemma_exchange_holds(a: BodyState, b: BodyState)
    requires
        a.valid(),
        b.valid(),
        a.position != b.position,
    ensures
        Exchange::of(a, b).holds(),
        Exchange::of(a, b).q1x == trunc_div(Exchange::of(a, b).n1x(), Exchange::of(a, b).k),
        Exchange::of(a, b).q1y == trunc_div(Exchange::of(a, b).n1y(), Exchange::of(a, b).k),
        Exchange::of(a, b).q2x == trunc_div(Exchange::of(a, b).n2x(), Exchange::of(a, b).k),
        Exchange::of(a, b).q2y == trunc_div(Exchange::of(a, b).n2y(), Exchange::of(a, b).k),
{
    let x = Exchange::of(a, b);
    let r = a.position.minus(b.position);
    let back = b.position.minus(a.position);
    let w = a.velocity.minus(b.velocity);
    a.lemma_mass_bounds();
    b.lemma_mass_bounds();
    lemma_square_sign(r.x);
    lemma_square_sign(r.y);
    assert(r.norm_sq() > 0);
    assert(x.k > 0) by (nonlinear_arith)
        requires
            x.k == (a.mass + b.mass) * r.norm_sq(),
            a.mass + b.mass > 0,
            r.norm_sq() > 0,
    ;
    lemma_turned_round(r.x, r.y, w.x, w.y);
    assert(back.x == -r.x && back.y == -r.y);
    assert(back.norm_sq() == r.norm_sq());
    assert(b.velocity.minus(a.velocity).dot(back) == x.d);
    assert((b.mass + a.mass) * back.norm_sq() == x.k);
    lemma_regroup(2 * a.mass, x.d, r.x);
    lemma_regroup(2 * a.mass, x.d, r.y);
    assert(2 * a.mass * x.d * back.x == x.n2x());
    assert(2 * a.mass * x.d * back.y == x.n2y());
    lemma_trunc_div_error(x.n1x(), x.k);
    lemma_trunc_div_error(x.n1y(), x.k);
    lemma_trunc_div_error(x.n2x(), x.k);
    lemma_trunc_div_error(x.n2y(), x.k);
}

/// Along one axis, rounding changes the momentum by less than the larger mass.
/// Here `s` is the inner product times the offset along the axis.
proof fn lemma_momentum_axis(m1: int, m2: int, k: int, s: int, q1: int, q2: int)
    requires
        m1 > 0,
        m2 > 0,
        k > 0,
        rounded(2 * m2 * s, 2 * m2 * s - k * q1, k),
        rounded(-(2 * m1 * s), -(2 * m1 * s) - k * q2, k),
    ensures
        -m1 < m1 * q1 + m2 * q2 < m1 || -m2 < m1 * q1 + m2 * q2 < m2,
        2 * m2 * s == k * q1 && -(2 * m1 * s) == k * q2 ==> m1 * q1 + m2 * q2 == 0,
{
    let e1 = 2 * m2 * s - k * q1;
    let e2 = -(2 * m1 * s) - k * q2;
    let t = m1 * q1 + m2 * q2;
    assert(k * t == -(m1 * e1 + m2 * e2)) by {
        let c = m1 * (m2 * s);
        lemma_spread(m1, 2 * m2 * s, k * q1);
        lemma_spread(m2, -(2 * m1 * s), k * q2);
        lemma_spread(k, m1 * q1, -(m2 * q2));
        lemma_turn(m1, k, q1);
        lemma_turn(m2, k, q2);
        lemma_regroup(2, m2, s);
        lemma_regroup(2, m1, s);
        lemma_turn(m1, 2, m2 * s);
        lemma_turn(m2, 2, m1 * s);
        lemma_turn(m2, m1, s);
        assert(m1 * (2 * m2 * s) == 2 * c);
        assert(m2 * (2 * m1 * s) == 2 * c);
        lemma_negate(m2, 2 * m1 * s);
        lemma_negate(k, m2 * q2);
    }
    if s >= 0 {
        assert(2 * m2 * s >= 0 && -(2 * m1 * s) <= 0) by (nonlinear_arith)
            requires
                s >= 0,
                m1 > 0,
                m2 > 0,
        ;
        assert(-(m2 * k) < m1 * e1 + m2 * e2 < m1 * k) by (nonlinear_arith)
            requires
                0 <= e1 < k,
                -k < e2 <= 0,
                m1 > 0,
                m2 > 0,
        ;
    } else {
        assert(2 * m2 * s <= 0 && -(2 * m1 * s) >= 0) by (nonlinear_arith)
            requires
                s < 0,
                m1 > 0,
                m2 > 0,
        ;
        assert(-(m1 * k) < m1 * e1 + m2 * e2 < m2 * k) by (nonlinear_arith)
            requires
                -k < e1 <= 0,
                0 <= e2 < k,
                m1 > 0,
                m2 > 0,
        ;
    }
    let big = if m1 >= m2 { m1 } else { m2 };
    assert(m1 * k <= big * k && m2 * k <= big * k) by (nonlinear_arith)
        requires
            k > 0,
            big >= m1,
            big >= m2,
    ;
    assert(-big < t < big) by (nonlinear_arith)
        requires
            k > 0,
            big > 0,
            -(big * k) < k * t < big * k,
    ;
    if 2 * m2 * s == k * q1 && -(2 * m1 * s) == k * q2 {
        assert(m1 * e1 + m2 * e2 == 0) by (nonlinear_arith)
            requires
                e1 == 0,
                e2 == 0,
        ;
        assert(t == 0) by (nonlinear_arith)
            requires
                k > 0,
                k * t == 0,
        ;
    }
}

/// The change of the momentum of a collision of which the equations hold.
proof fn lemma_momentum_change(x: Exchange)
    requires
        x.holds(),
    ensures
        -x.m1 < x.momentum_change_x() < x.m1 || -x.m2 < x.momentum_change_x() < x.m2,
        -x.m1 < x.momentum_change_y() < x.m1 || -x.m2 < x.momentum_change_y() < x.m2,
        x.e1x() == 0 && x.e2x() == 0 ==> x.momentum_change_x() == 0,
        x.e1y() == 0 && x.e2y() == 0 ==> x.momentum_change_y() == 0,
{
    lemma_regroup(2 * x.m2, x.d, x.rx);
    lemma_regroup(2 * x.m1, x.d, x.rx);
    lemma_regroup(2 * x.m2, x.d, x.ry);
    lemma_regroup(2 * x.m1, x.d, x.ry);
    lemma_regroup(2, x.m2, x.d * x.rx);
    lemma_regroup(2, x.m1, x.d * x.rx);
    lemma_regroup(2, x.m2, x.d * x.ry);
    lemma_regroup(2, x.m1, x.d * x.ry);
    lemma_momentum_axis(x.m1, x.m2, x.k, x.d * x.rx, x.q1x, x.q2x);
    lemma_momentum_axis(x.m1, x.m2, x.k, x.d * x.ry, x.q1y, x.q2y);
}

/// A factor spreads over a sum.
proof fn lemma_spread_sum(a: int, b: int, c: int)
    by (nonlinear_arith)
    ensures
        a * (b + c) == a * b + a * c,
{
}

/// A difference spreads over a factor.
proof fn lemma_spread_left(a: int, b: int, c: int)
    by (nonlinear_arith)
    ensures
        (a - b) * c == a * c - b * c,
{
}

/// The factors of a product change places.
proof fn lemma_swap(a: int, b: int)
    by (nonlinear_arith)
    ensures
        a * b == b * a,
{
}

/// The square of a sum.
proof fn lemma_binomial(a: int, b: int)
    by (nonlinear_arith)
    ensures
        (a + b) * (a + b) == a * a + 2 * (a * b) + b * b,
{
}

/// The change of energy of one velocity component, times the square of the
/// denominator, splits into what the exact quotient would give and what rounding
/// adds. Here `n` is the numerator and `e` the remainder.
proof fn lemma_energy_split(k: int, v: int, q: int, n: int, e: int)
    requires
        n == e + k * q,
    ensures
        (k * k) * (q * q) - 2 * ((k * k) * (v * q)) == (n * n - 2 * ((k * v) * n)) + (2 * ((k * (v
            - q)) * e) - e * e),
{
    let a = k * q;
    lemma_binomial(e, a);
    assert(n * n == e * e + 2 * (e * a) + a * a);
    lemma_spread_sum(k * v, e, a);
    assert((k * v) * n == (k * v) * e + (k * v) * a);
    lemma_spread(k, v, q);
    lemma_spread_left(k * v, a, e);
    lemma_swap(a, e);
    assert((k * (v - q)) * e == (k * v) * e - e * a);
    assert(a * a == (k * k) * (q * q)) by (nonlinear_arith)
        requires
            a == k * q,
    ;
    assert((k * v) * a == (k * k) * (v * q)) by (nonlinear_arith)
        requires
            a == k * q,
    ;
}

/// The same for a body of mass `m`.
proof fn lemma_energy_term(m: int, k: int, v: int, q: int, n: int, e: int)
    requires
        n == e + k * q,
    ensures
        (k * k) * (m * (q * q - 2 * (v * q))) == m * (n * n - 2 * ((k * v) * n)) + m * (2 * ((k * (v
            - q)) * e) - e * e),
{
    let k2 = k * k;
    let t = q * q - 2 * (v * q);
    let x = n * n - 2 * ((k * v) * n);
    let y = 2 * ((k * (v - q)) * e) - e * e;
    lemma_energy_split(k, v, q, n, e);
    lemma_spread(k2, q * q, 2 * (v * q));
    lemma_turn(k2, 2, v * q);
    assert(k2 * t == x + y);
    lemma_turn(k2, m, t);
    lemma_spread_sum(m, x, y);
}

/// What the exact quotients of the two bodies give along one axis. Here `t` is the
/// inner product times the offset along the axis, `n1` and `n2` the numerators.
proof fn lemma_energy_exact_axis(
    m1: int,
    m2: int,
    k: int,
    v1: int,
    v2: int,
    t: int,
    n1: int,
    n2: int,
)
    requires
        n1 == 2 * (m2 * t),
        n2 == -(2 * (m1 * t)),
    ensures
        m1 * (n1 * n1 - 2 * ((k * v1) * n1)) + m2 * (n2 * n2 - 2 * ((k * v2) * n2)) == 4 * ((m1
            * m2) * ((m1 + m2) * (t * t) - k * (t * (v1 - v2)))),
{
    let p = m1 * m2;
    let tt = t * t;
    // the left side, term by term
    lemma_spread(m1, n1 * n1, 2 * ((k * v1) * n1));
    lemma_turn(m1, 2, (k * v1) * n1);
    lemma_spread(m2, n2 * n2, 2 * ((k * v2) * n2));
    lemma_turn(m2, 2, (k * v2) * n2);
    assert(m1 * (n1 * n1) == 4 * (p * (m2 * tt))) by (nonlinear_arith)
        requires
            n1 == 2 * (m2 * t),
            p == m1 * m2,
            tt == t * t,
    ;
    assert(m2 * (n2 * n2) == 4 * (p * (m1 * tt))) by (nonlinear_arith)
        requires
            n2 == -(2 * (m1 * t)),
            p == m1 * m2,
            tt == t * t,
    ;
    assert(m1 * ((k * v1) * n1) == 2 * (p * (k * (t * v1)))) by (nonlinear_arith)
        requires
            n1 == 2 * (m2 * t),
            p == m1 * m2,
    ;
    assert(m2 * ((k * v2) * n2) == -(2 * (p * (k * (t * v2))))) by (nonlinear_arith)
        requires
            n2 == -(2 * (m1 * t)),
            p == m1 * m2,
    ;
    // the right side, term by term
    lemma_spread_left(m1, -m2, tt);
    lemma_negate(m2, tt);
    assert((m1 + m2) * tt == m1 * tt + m2 * tt);
    lemma_spread(t, v1, v2);
    lemma_spread(k, t * v1, t * v2);
    lemma_spread(p, (m1 + m2) * tt, k * (t * (v1 - v2)));
    lemma_spread_sum(p, m1 * tt, m2 * tt);
    lemma_spread(p, k * (t * v1), k * (t * v2));
}

/// The exact quotients conserve the energy: what they give along the two axes
/// cancels. Here `tx` and `ty` are the inner product times the offset.
proof fn lemma_energy_exact_sum(
    m: int,
    k: int,
    d: int,
    rx: int,
    ry: int,
    wx: int,
    wy: int,
    tx: int,
    ty: int,
)
    requires
        k == m * (rx * rx + ry * ry),
        d == wx * rx + wy * ry,
        tx == d * rx,
        ty == d * ry,
    ensures
        (m * (tx * tx) - k * (tx * wx)) + (m * (ty * ty) - k * (ty * wy)) == 0,
{
    let dd = d * d;
    let r2 = rx * rx + ry * ry;
    assert(tx * tx == dd * (rx * rx)) by (nonlinear_arith)
        requires
            tx == d * rx,
            dd == d * d,
    ;
    assert(ty * ty == dd * (ry * ry)) by (nonlinear_arith)
        requires
            ty == d * ry,
            dd == d * d,
    ;
    lemma_spread_sum(dd, rx * rx, ry * ry);
    lemma_spread_sum(m, tx * tx, ty * ty);
    assert(m * (tx * tx) + m * (ty * ty) == m * (dd * r2));
    lemma_turn(m, dd, r2);
    assert(m * (dd * r2) == dd * k);
    assert(tx * wx == d * (wx * rx)) by (nonlinear_arith)
        requires
            tx == d * rx,
    ;
    assert(ty * wy == d * (wy * ry)) by (nonlinear_arith)
        requires
            ty == d * ry,
    ;
    lemma_spread_sum(d, wx * rx, wy * ry);
    assert(tx * wx + ty * wy == dd);
    lemma_spread_sum(k, tx * wx, ty * wy);
    lemma_swap(k, dd);
}

/// A positive factor keeps bounds.
proof fn lemma_scale(k: int, x: int, lo: int, hi: int)
    by (nonlinear_arith)
    requires
        k > 0,
        lo <= x <= hi,
    ensures
        k * lo <= k * x <= k * hi,
{
}

/// A positive factor can be taken out of bounds.
proof fn lemma_unscale(k: int, x: int, b: int)
    by (nonlinear_arith)
    requires
        k > 0,
        -(k * b) <= k * x <= k * b,
    ensures
        -b <= x <= b,
{
}

/// What rounding adds to the energy of one velocity component of a body of mass
/// `m`, times the square of the denominator. Here `vp` is the component after the
/// collision and `e` the remainder.
proof fn lemma_rounding_term(m: int, k: int, vp: int, e: int)
    requires
        m > 0,
        k > 0,
        -k < e < k,
    ensures
        -((k * k) * (m * (2 * magnitude(vp) + 1))) <= m * (2 * ((k * vp) * e) - e * e),
        m * (2 * ((k * vp) * e) - e * e) <= (k * k) * (m * (2 * magnitude(vp) + 1)),
        e == 0 ==> m * (2 * ((k * vp) * e) - e * e) == 0,
{
    let a = magnitude(vp);
    let k2 = k * k;
    let z = 2 * ((k * vp) * e) - e * e;
    let w = k2 * (2 * a + 1);
    lemma_mul_bound(vp, e, a, k);
    lemma_regroup(k, vp, e);
    lemma_scale(k, vp * e, -(a * k), a * k);
    lemma_negate(k, a * k);
    assert(k * (a * k) == k2 * a) by (nonlinear_arith)
        requires
            k2 == k * k,
    ;
    lemma_square_sign(e);
    lemma_mul_bound(e, e, k, k);
    lemma_spread_sum(k2, 2 * a, 1);
    lemma_turn(k2, 2, a);
    assert(w == 2 * (k2 * a) + k2);
    assert(-w <= z <= w);
    lemma_scale(m, z, -w, w);
    lemma_negate(m, w);
    lemma_turn(m, k2, 2 * a + 1);
    if e == 0 {
        assert(m * z == 0) by (nonlinear_arith)
            requires
                e == 0,
                z == 2 * ((k * vp) * e) - e * e,
        ;
    }
}

/// The change of the kinetic energy of a collision of which the equations hold.
proof fn lemma_energy_change(x: Exchange)
    requires
        x.holds(),
    ensures
        -x.energy_slack() <= x.energy_change() <= x.energy_slack(),
        x.even() ==> x.energy_change() == 0,
{
    let k = x.k;
    let k2 = k * k;
    let p = x.m1 * x.m2;
    let m = x.m1 + x.m2;
    let tx = x.d * x.rx;
    let ty = x.d * x.ry;
    let wx = x.v1x - x.v2x;
    let wy = x.v1y - x.v2y;
    lemma_square_sign(k);
    // each term of the change, times the square of the denominator
    let t1x = x.m1 * (x.q1x * x.q1x - 2 * (x.v1x * x.q1x));
    let t1y = x.m1 * (x.q1y * x.q1y - 2 * (x.v1y * x.q1y));
    let t2x = x.m2 * (x.q2x * x.q2x - 2 * (x.v2x * x.q2x));
    let t2y = x.m2 * (x.q2y * x.q2y - 2 * (x.v2y * x.q2y));
    lemma_energy_term(x.m1, k, x.v1x, x.q1x, x.n1x(), x.e1x());
    lemma_energy_term(x.m1, k, x.v1y, x.q1y, x.n1y(), x.e1y());
    lemma_energy_term(x.m2, k, x.v2x, x.q2x, x.n2x(), x.e2x());
    lemma_energy_term(x.m2, k, x.v2y, x.q2y, x.n2y(), x.e2y());
    lemma_spread_sum(k2, t1x + t1y + t2x, t2y);
    lemma_spread_sum(k2, t1x + t1y, t2x);
    lemma_spread_sum(k2, t1x, t1y);
    assert(k2 * x.energy_change() == k2 * t1x + k2 * t1y + k2 * t2x + k2 * t2y);
    // what the exact quotients give
    let g1x = x.m1 * (x.n1x() * x.n1x() - 2 * ((k * x.v1x) * x.n1x()));
    let g1y = x.m1 * (x.n1y() * x.n1y() - 2 * ((k * x.v1y) * x.n1y()));
    let g2x = x.m2 * (x.n2x() * x.n2x() - 2 * ((k * x.v2x) * x.n2x()));
    let g2y = x.m2 * (x.n2y() * x.n2y() - 2 * ((k * x.v2y) * x.n2y()));
    lemma_regroup(2 * x.m2, x.d, x.rx);
    lemma_regroup(2 * x.m2, x.d, x.ry);
    lemma_regroup(2 * x.m1, x.d, x.rx);
    lemma_regroup(2 * x.m1, x.d, x.ry);
    lemma_regroup(2, x.m2, tx);
    lemma_regroup(2, x.m2, ty);
    lemma_regroup(2, x.m1, tx);
    lemma_regroup(2, x.m1, ty);
    lemma_energy_exact_axis(x.m1, x.m2, k, x.v1x, x.v2x, tx, x.n1x(), x.n2x());
    lemma_energy_exact_axis(x.m1, x.m2, k, x.v1y, x.v2y, ty, x.n1y(), x.n2y());
    lemma_swap(wx, x.rx);
    lemma_swap(wy, x.ry);
    lemma_energy_exact_sum(m, k, x.d, x.rx, x.ry, wx, wy, tx, ty);
    let ax = m * (tx * tx) - k * (tx * wx);
    let ay = m * (ty * ty) - k * (ty * wy);
    assert(ay == -ax);
    lemma_negate(p, ax);
    assert(g1x + g2x + g1y + g2y == 0);
    // what rounding adds
    let r1x = x.m1 * (2 * ((k * (x.v1x - x.q1x)) * x.e1x()) - x.e1x() * x.e1x());
    let r1y = x.m1 * (2 * ((k * (x.v1y - x.q1y)) * x.e1y()) - x.e1y() * x.e1y());
    let r2x = x.m2 * (2 * ((k * (x.v2x - x.q2x)) * x.e2x()) - x.e2x() * x.e2x());
    let r2y = x.m2 * (2 * ((k * (x.v2y - x.q2y)) * x.e2y()) - x.e2y() * x.e2y());
    assert(k2 * x.energy_change() == r1x + r1y + r2x + r2y);
    lemma_rounding_term(x.m1, k, x.v1x - x.q1x, x.e1x());
    lemma_rounding_term(x.m1, k, x.v1y - x.q1y, x.e1y());
    lemma_rounding_term(x.m2, k, x.v2x - x.q2x, x.e2x());
    lemma_rounding_term(x.m2, k, x.v2y - x.q2y, x.e2y());
    let s1x = x.m1 * (2 * magnitude(x.v1x - x.q1x) + 1);
    let s1y = x.m1 * (2 * magnitude(x.v1y - x.q1y) + 1);
    let s2x = x.m2 * (2 * magnitude(x.v2x - x.q2x) + 1);
    let s2y = x.m2 * (2 * magnitude(x.v2y - x.q2y) + 1);
    lemma_spread_sum(k2, s1x + s1y + s2x, s2y);
    lemma_spread_sum(k2, s1x + s1y, s2x);
    lemma_spread_sum(k2, s1x, s1y);
    assert(k2 * x.energy_slack() == k2 * s1x + k2 * s1y + k2 * s2x + k2 * s2y);
    lemma_unscale(k2, x.energy_change(), x.energy_slack());
    if x.even() {
        assert(k2 * x.energy_change() == 0);
        assert(x.energy_change() == 0) by (nonlinear_arith)
            requires
                k2 > 0,
                k2 * x.energy_change() == 0,
        ;
    }
}

/// Along one axis, the denominator times the difference of the two quotients is
/// twice the sum of the masses times `t`, less the difference of the remainders.
/// Here `t` is the inner product times the offset along the axis.
proof fn lemma_quotient_gap(m1: int, m2: int, k: int, t: int, q1: int, q2: int)
    ensures
        k * (q1 - q2) == 2 * ((m1 + m2) * t) - ((2 * (m2 * t) - k * q1) - (-(2 * (m1 * t)) - k
            * q2)),
{
    lemma_spread(k, q1, q2);
    lemma_spread_left(m1, -m2, t);
    lemma_negate(m2, t);
}

/// The parting rate of a collision of which the equations hold.
proof fn lemma_parting_rate_change(x: Exchange)
    requires
        x.holds(),
    ensures
        -(2 * magnitude(x.rx) + 2 * magnitude(x.ry)) <= x.parting_rate_after() + x.d,
        x.parting_rate_after() + x.d <= 2 * magnitude(x.rx) + 2 * magnitude(x.ry),
        x.even() ==> x.parting_rate_after() == -x.d,
{
    let k = x.k;
    let m = x.m1 + x.m2;
    let tx = x.d * x.rx;
    let ty = x.d * x.ry;
    let gx = x.q1x - x.q2x;
    let gy = x.q1y - x.q2y;
    let fx = x.e1x() - x.e2x();
    let fy = x.e1y() - x.e2y();
    let g = gx * x.rx + gy * x.ry;
    let after = x.parting_rate_after();
    // the rate after the exchange is the rate before it less `g`
    lemma_spread_left(x.v1x - x.v2x, gx, x.rx);
    lemma_spread_left(x.v1y - x.v2y, gy, x.ry);
    assert((x.v1x - x.q1x) - (x.v2x - x.q2x) == (x.v1x - x.v2x) - gx);
    assert((x.v1y - x.q1y) - (x.v2y - x.q2y) == (x.v1y - x.v2y) - gy);
    assert(after == x.d - g);
    // the denominator times `g`
    lemma_regroup(2 * x.m2, x.d, x.rx);
    lemma_regroup(2 * x.m2, x.d, x.ry);
    lemma_regroup(2 * x.m1, x.d, x.rx);
    lemma_regroup(2 * x.m1, x.d, x.ry);
    lemma_regroup(2, x.m2, tx);
    lemma_regroup(2, x.m2, ty);
    lemma_regroup(2, x.m1, tx);
    lemma_regroup(2, x.m1, ty);
    lemma_quotient_gap(x.m1, x.m2, k, tx, x.q1x, x.q2x);
    lemma_quotient_gap(x.m1, x.m2, k, ty, x.q1y, x.q2y);
    assert(k * gx == 2 * (m * tx) - fx);
    assert(k * gy == 2 * (m * ty) - fy);
    lemma_regroup(k, gx, x.rx);
    lemma_regroup(k, gy, x.ry);
    lemma_spread_left(2 * (m * tx), fx, x.rx);
    lemma_spread_left(2 * (m * ty), fy, x.ry);
    let xx = x.rx * x.rx;
    let yy = x.ry * x.ry;
    assert((2 * (m * tx)) * x.rx == 2 * (x.d * (m * xx))) by (nonlinear_arith)
        requires
            tx == x.d * x.rx,
            xx == x.rx * x.rx,
    ;
    assert((2 * (m * ty)) * x.ry == 2 * (x.d * (m * yy))) by (nonlinear_arith)
        requires
            ty == x.d * x.ry,
            yy == x.ry * x.ry,
    ;
    lemma_spread_sum(x.d, m * xx, m * yy);
    lemma_spread_sum(m, xx, yy);
    assert(x.d * (m * xx) + x.d * (m * yy) == x.d * k);
    lemma_spread_sum(k, gx * x.rx, gy * x.ry);
    assert(k * g == 2 * (x.d * k) - (fx * x.rx + fy * x.ry));
    // so the denominator times the change of the rate is what rounding left
    lemma_spread(k, 2 * x.d, g);
    lemma_turn(k, 2, x.d);
    lemma_swap(k, x.d);
    assert(k * (after + x.d) == fx * x.rx + fy * x.ry);
    let ax = magnitude(x.rx);
    let ay = magnitude(x.ry);
    lemma_mul_bound(fx, x.rx, 2 * k, ax);
    lemma_mul_bound(fy, x.ry, 2 * k, ay);
    lemma_turn(2, k, ax);
    lemma_turn(2, k, ay);
    lemma_regroup(2, k, ax);
    lemma_regroup(2, k, ay);
    lemma_spread_sum(k, 2 * ax, 2 * ay);
    lemma_unscale(k, after + x.d, 2 * ax + 2 * ay);
    if x.even() {
        assert(fx * x.rx + fy * x.ry == 0) by (nonlinear_arith)
            requires
                fx == 0,
                fy == 0,
        ;
        assert(after + x.d == 0) by (nonlinear_arith)
            requires
                k > 0,
                k * (after + x.d) == 0,
        ;
    }
}

/// The square of a difference.
proof fn lemma_square_of_difference(v: int, q: int)
    by (nonlinear_arith)
    ensures
        (v - q) * (v - q) == v * v + (q * q - 2 * (v * q)),
{
}

/// The energy of one body after the exchange is what it was and the change.
proof fn lemma_body_energy(m: int, vx: int, vy: int, qx: int, qy: int)
    ensures
        m * ((vx - qx) * (vx - qx) + (vy - qy) * (vy - qy)) == m * (vx * vx + vy * vy) + (m * (qx
            * qx - 2 * (vx * qx)) + m * (qy * qy - 2 * (vy * qy))),
{
    let cx = qx * qx - 2 * (vx * qx);
    let cy = qy * qy - 2 * (vy * qy);
    lemma_square_of_difference(vx, qx);
    lemma_square_of_difference(vy, qy);
    lemma_spread_sum(m, vx * vx + vy * vy, cx + cy);
    lemma_spread_sum(m, cx, cy);
}

/// A numerator that the denominator divides leaves no remainder, whatever its sign.
proof fn lemma_even_quotient(n: int, k: int)
    requires
        k > 0,
        n % k == 0,
    ensures
        n - k * trunc_div(n, k) == 0,
        (-n) - k * trunc_div(-n, k) == 0,
{
    vstd::arithmetic::div_mod::lemma_fundamental_div_mod(n, k);
    lemma_trunc_div_exact(n, k, n / k);
    lemma_negate(k, n / k);
    lemma_trunc_div_exact(-n, k, -(n / k));
}

/// The quantities of the exchange describe the collision: where no velocity is
/// held back, the bodies leave with their velocities less the quotients.
proof fn lemma_exchange_describes(a: BodyState, b: BodyState)
    requires
        a.valid(),
        b.valid(),
        a.position != b.position,
        within_speed_limit(a, b),
    ensures
        Exchange::of(a, b).holds(),
        momentum(after_collision(a, b).0, after_collision(a, b).1).x - momentum(a, b).x
            == Exchange::of(a, b).momentum_change_x(),
        momentum(after_collision(a, b).0, after_collision(a, b).1).y - momentum(a, b).y
            == Exchange::of(a, b).momentum_change_y(),
        twice_energy(after_collision(a, b).0, after_collision(a, b).1) - twice_energy(a, b)
            == Exchange::of(a, b).energy_change(),
        energy_tolerance(a, b) == Exchange::of(a, b).energy_slack(),
        parting_rate(a, b) == Exchange::of(a, b).d,
        parting_rate(after_collision(a, b).0, after_collision(a, b).1) == Exchange::of(
            a,
            b,
        ).parting_rate_after(),
        divides_evenly(a, b) ==> Exchange::of(a, b).even(),
{
    let x = Exchange::of(a, b);
    lemma_exchange_holds(a, b);
    assert(rebound(a, b) == a.velocity.minus(impulse(a, b)));
    assert(rebound(b, a) == b.velocity.minus(impulse(b, a)));
    lemma_spread(x.m1, x.v1x, x.q1x);
    lemma_spread(x.m2, x.v2x, x.q2x);
    lemma_spread(x.m1, x.v1y, x.q1y);
    lemma_spread(x.m2, x.v2y, x.q2y);
    lemma_body_energy(x.m1, x.v1x, x.v1y, x.q1x, x.q1y);
    lemma_body_energy(x.m2, x.v2x, x.v2y, x.q2x, x.q2y);
    lemma_spread_sum(x.m1, 2 * magnitude(x.v1x - x.q1x) + 1, 2 * magnitude(x.v1y - x.q1y) + 1);
    lemma_spread_sum(x.m2, 2 * magnitude(x.v2x - x.q2x) + 1, 2 * magnitude(x.v2y - x.q2y) + 1);
    if divides_evenly(a, b) {
        lemma_even_quotient(x.n1x(), x.k);
        lemma_even_quotient(x.n1y(), x.k);
        lemma_even_quotient(2 * x.m1 * x.d * x.rx, x.k);
        lemma_even_quotient(2 * x.m1 * x.d * x.ry, x.k);
    }
}

/// An elastic collision conserves the momentum. Where no velocity is held back at
/// the speed limit, the total momentum after the collision differs from the one
/// before by less than the larger of the two masses along each axis: less than
/// one step of velocity of the heavier body. Where the quotients come out even,
/// it is the same.
pub proof fn lemma_momentum_conserved(a: BodyState, b: BodyState)
    requires
        a.valid(),
        b.valid(),
        a.position != b.position,
        within_speed_limit(a, b),
    ensures
        ({
            let (a2, b2) = after_collision(a, b);
            let tolerance = if a.mass >= b.mass { a.mass } else { b.mass };
            &&& magnitude(momentum(a2, b2).x - momentum(a, b).x) < tolerance
            &&& magnitude(momentum(a2, b2).y - momentum(a, b).y) < tolerance
            &&& divides_evenly(a, b) ==> momentum(a2, b2) == momentum(a, b)
        }),
{
    lemma_exchange_describes(a, b);
    lemma_momentum_change(Exchange::of(a, b));
}

/// An elastic collision conserves the kinetic energy. Where no velocity is held
/// back at the speed limit, twice the total kinetic energy after the collision
/// differs from the one before by no more than `energy_tolerance`. Where the
/// quotients come out even, it is the same.
pub proof fn lemma_energy_conserved(a: BodyState, b: BodyState)
    requires
        a.valid(),
        b.valid(),
        a.position != b.position,
        within_speed_limit(a, b),
    ensures
        ({
            let (a2, b2) = after_collision(a, b);
            &&& magnitude(twice_energy(a2, b2) - twice_energy(a, b)) <= energy_tolerance(a, b)
            &&& divides_evenly(a, b) ==> twice_energy(a2, b2) == twice_energy(a, b)
        }),
{
    lemma_exchange_describes(a, b);
    lemma_energy_change(Exchange::of(a, b));
}

/// An elastic collision turns the parting rate round: the bodies part as fast as
/// they approached. Where no velocity is held back at the speed limit, the rate
/// after the collision is the negative of the one before, up to two steps for
/// each step of offset along either axis; where the quotients come out even, it
/// is that negative.
pub proof fn lemma_parting_rate_reversed(a: BodyState, b: BodyState)
    requires
        a.valid(),
        b.valid(),
        a.position != b.position,
        within_speed_limit(a, b),
    ensures
        ({
            let (a2, b2) = after_collision(a, b);
            let r = a.position.minus(b.position);
            &&& magnitude(parting_rate(a2, b2) + parting_rate(a, b)) <= 2 * magnitude(r.x) + 2
                * magnitude(r.y)
            &&& divides_evenly(a, b) ==> parting_rate(a2, b2) == -parting_rate(a, b)
        }),
{
    lemma_exchange_describes(a, b);
    lemma_parting_rate_change(Exchange::of(a, b));
}

/// The quotient of the numerator turned round is the quotient turned round, where
/// the division comes out even. Here `c * d * r` is the numerator.
proof fn lemma_quotient_turned_round(c: int, d: int, r: int, k: int, q: int)
    requires
        k > 0,
        c * d * r == k * q,
    ensures
        trunc_div(c * (-d) * r, k) == -q,
{
    lemma_negate(c, d);
    lemma_negate(c * d, r);
    lemma_negate(k, q);
    lemma_trunc_div_exact(c * (-d) * r, k, -q);
}

/// A second collision undoes the first. Where the quotients come out even and no
/// velocity is held back at the speed limit, two bodies that collide again at
/// once, in the places they were in, get back the velocities they had.
pub proof fn lemma_second_collision_restores(a: BodyState, b: BodyState)
    requires
        a.valid(),
        b.valid(),
        a.position != b.position,
        within_speed_limit(a, b),
        divides_evenly(a, b),
    ensures
        ({
            let (a2, b2) = after_collision(a, b);
            after_collision(a2, b2) == (a, b)
        }),
{
    let (a2, b2) = after_collision(a, b);
    let x = Exchange::of(a, b);
    lemma_exchange_describes(a, b);
    lemma_exchange_holds(a, b);
    lemma_parting_rate_change(x);
    assert(a2.valid() && b2.valid());
    let y = Exchange::of(a2, b2);
    lemma_exchange_holds(a2, b2);
    assert(y.d == -x.d);
    assert(y.k == x.k);
    lemma_quotient_turned_round(2 * x.m2, x.d, x.rx, x.k, x.q1x);
    lemma_quotient_turned_round(2 * x.m2, x.d, x.ry, x.k, x.q1y);
    lemma_negate(x.k, x.q2x);
    lemma_negate(x.k, x.q2y);
    assert(y.q1x == -x.q1x);
    assert(y.q1y == -x.q1y);
    assert(y.n2x() == -(2 * x.m1 * (-x.d) * x.rx));
    assert(y.n2y() == -(2 * x.m1 * (-x.d) * x.ry));
    lemma_negate(2 * x.m1, x.d);
    lemma_negate((2 * x.m1) * x.d, x.rx);
    lemma_negate((2 * x.m1) * x.d, x.ry);
    assert(y.n2x() == -x.n2x());
    assert(y.n2y() == -x.n2y());
    assert(x.n2x() == x.k * x.q2x);
    assert(x.n2y() == x.k * x.q2y);
    lemma_trunc_div_exact(y.n2x(), x.k, -x.q2x);
    lemma_trunc_div_exact(y.n2y(), x.k, -x.q2y);
    assert(y.q2x == -x.q2x);
    assert(y.q2y == -x.q2y);
    assert(rebound(a2, b2) == a.velocity);
    assert(rebound(b2, a2) == b.velocity);
}

} // verus!
