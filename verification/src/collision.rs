//! Detection of overlapping pairs and the elastic exchange of their velocities.

use vstd::prelude::*;
use crate::body::{Body, BodyState};
use crate::error::PhysicsError;
use crate::scalar::{
    clamp, lemma_mul_bound, lemma_square_sign, lemma_trunc_div_bound, saturate, trunc_div,
    COORD_LIMIT, RADIUS_LIMIT, SPEED_LIMIT,
};
use crate::vector::{Vec2, Vector};
use crate::pairs::{all_pairs, pairs_before, row_pairs};
use crate::world::World;

verus! {

/// Two discs collide when 98% of the distance of their centers is less than the sum
/// of their radii. Both sides are non-negative, so the squares are compared:
/// `0.98 = 49 / 50`, `49 * 49 = 2401`, `50 * 50 = 2500`.
pub open spec fn overlapping(a: BodyState, b: BodyState) -> bool {
    2401 * a.position.minus(b.position).norm_sq() < 2500 * ((a.radius + b.radius) * (a.radius
        + b.radius))
}

/// The change of velocity that a collision with `other` takes from `me`:
/// with `r` the offset of the centers, `2 * m_other / (m_me + m_other)` times
/// `dot(v_me - v_other, r) / |r|^2` times `r`, each component rounded toward zero.
pub open spec fn impulse(me: BodyState, other: BodyState) -> Vector {
    let r = me.position.minus(other.position);
    let d = me.velocity.minus(other.velocity).dot(r);
    let den = (me.mass + other.mass) * r.norm_sq();
    Vector {
        x: trunc_div(2 * other.mass * d * r.x, den),
        y: trunc_div(2 * other.mass * d * r.y, den),
    }
}

/// The velocity of `me` after an elastic collision with `other`.
pub open spec fn rebound(me: BodyState, other: BodyState) -> Vector {
    me.velocity.minus(impulse(me, other)).clamped(SPEED_LIMIT as int)
}

/// Tells whether two bodies collide.
pub fn collides(a: &Body, b: &Body) -> (r: bool)
    requires
        a.wf(),
        b.wf(),
    ensures
        r == overlapping(a@, b@),
{
    let pa = a.position();
    let pb = b.position();
    let dx: i128 = pa.x as i128 - pb.x as i128;
    let dy: i128 = pa.y as i128 - pb.y as i128;
    let sum: i128 = a.radius() as i128 + b.radius() as i128;
    proof {
        lemma_mul_bound(dx as int, dx as int, 2 * COORD_LIMIT, 2 * COORD_LIMIT);
        lemma_mul_bound(dy as int, dy as int, 2 * COORD_LIMIT, 2 * COORD_LIMIT);
        lemma_mul_bound(sum as int, sum as int, 2 * RADIUS_LIMIT, 2 * RADIUS_LIMIT);
    }
    let dist_sq: i128 = dx * dx + dy * dy;
    2401 * dist_sq < 2500 * (sum * sum)
}

/// One component of a rebound: `v - trunc_div(k * r, den)`, held to the speed range.
fn rebound_component(v: i64, k: i128, r: i128, den: i128) -> (out: i64)
    requires
        -SPEED_LIMIT <= v <= SPEED_LIMIT,
        -0x1_0000_0000_0000_0000_0000_0000 <= k <= 0x1_0000_0000_0000_0000_0000_0000,
        -2 * COORD_LIMIT <= r <= 2 * COORD_LIMIT,
        den > 0,
    ensures
        out == clamp(v - trunc_div(k * r, den as int), SPEED_LIMIT as int),
{
    proof {
        lemma_mul_bound(k as int, r as int, 0x1_0000_0000_0000_0000_0000_0000, 2 * COORD_LIMIT);
        lemma_trunc_div_bound(
            k * r,
            den as int,
            0x1_0000_0000_0000_0000_0000_0000 * (2 * COORD_LIMIT),
        );
    }
    let q: i128 = (k * r) / den;
    saturate(v as i128 - q, SPEED_LIMIT)
}

/// The velocities of two colliding bodies after their elastic collision, the first
/// body's first. Momentum and kinetic energy pass between the bodies along the line
/// of their centers; the positions stay as they are. Each component of the new
/// velocities is held at `SPEED_LIMIT`; where one is held back, neither momentum
/// nor kinetic energy is conserved.
///
/// Fails with `DegenerateGeometry` exactly when the centers coincide.
pub fn elastic_collision_2(body1: &Body, body2: &Body) -> (res: Result<(Vec2, Vec2), PhysicsError>)
    requires
        body1.wf(),
        body2.wf(),
    ensures
        body1@.position == body2@.position <==> res == Err::<(Vec2, Vec2), PhysicsError>(
            PhysicsError::DegenerateGeometry,
        ),
        body1@.position != body2@.position <==> res.is_ok(),
        res.is_ok() ==> res.unwrap().0@ == rebound(body1@, body2@) && res.unwrap().1@ == rebound(
            body2@,
            body1@,
        ),
{
    let pos1 = body1.position();
    let pos2 = body2.position();
    if pos1.x == pos2.x && pos1.y == pos2.y {
        return Err(PhysicsError::DegenerateGeometry);
    }
    let v1 = body1.velocity();
    let v2 = body2.velocity();
    let m1: i128 = body1.mass() as i128;
    let m2: i128 = body2.mass() as i128;
    let rx: i128 = pos1.x as i128 - pos2.x as i128;
    let ry: i128 = pos1.y as i128 - pos2.y as i128;
    let wx: i128 = v1.x as i128 - v2.x as i128;
    let wy: i128 = v1.y as i128 - v2.y as i128;
    proof {
        body1@.lemma_mass_bounds();
        body2@.lemma_mass_bounds();
        lemma_mul_bound(rx as int, rx as int, 2 * COORD_LIMIT, 2 * COORD_LIMIT);
        lemma_mul_bound(ry as int, ry as int, 2 * COORD_LIMIT, 2 * COORD_LIMIT);
        lemma_mul_bound(wx as int, rx as int, 2 * SPEED_LIMIT, 2 * COORD_LIMIT);
        lemma_mul_bound(wy as int, ry as int, 2 * SPEED_LIMIT, 2 * COORD_LIMIT);
        lemma_square_sign(rx as int);
        lemma_square_sign(ry as int);
    }
    let r_sq: i128 = rx * rx + ry * ry;
    let d: i128 = wx * rx + wy * ry;
    proof {
        lemma_mul_bound((m1 + m2) as int, r_sq as int, 20_000_000_000, 80_000_000_000_000_000);
        lemma_mul_bound((2 * m2) as int, d as int, 20_000_000_000, 80_000_000_000_000_000);
        lemma_mul_bound((2 * m1) as int, d as int, 20_000_000_000, 80_000_000_000_000_000);
        assert((m1 + m2) * r_sq > 0) by (nonlinear_arith)
            requires
                m1 + m2 > 0,
                r_sq > 0,
        ;
    }
    let den: i128 = (m1 + m2) * r_sq;
    let k1: i128 = 2 * m2 * d;
    let k2: i128 = 2 * m1 * d;
    let new1 = Vec2 {
        x: rebound_component(v1.x, k1, rx, den),
        y: rebound_component(v1.y, k1, ry, den),
    };
    let new2 = Vec2 {
        x: rebound_component(v2.x, k2, -rx, (m2 + m1) * r_sq),
        y: rebound_component(v2.y, k2, -ry, (m2 + m1) * r_sq),
    };
    proof {
        let s1 = body1@;
        let s2 = body2@;
        let back = s2.position.minus(s1.position);
        assert(back.x == -rx && back.y == -ry);
        assert(back.norm_sq() == r_sq) by (nonlinear_arith)
            requires
                back.x == -rx,
                back.y == -ry,
                back.norm_sq() == back.x * back.x + back.y * back.y,
                r_sq == rx * rx + ry * ry,
        ;
        assert(s2.velocity.minus(s1.velocity).dot(back) == d) by (nonlinear_arith)
            requires
                back.x == -rx,
                back.y == -ry,
                s2.velocity.minus(s1.velocity).dot(back) == (-wx) * back.x + (-wy) * back.y,
                d == wx * rx + wy * ry,
        ;
    }
    Ok((new1, new2))
}

/// Two bodies exchange velocities when they collide and their centers differ.
pub open spec fn exchanging(a: BodyState, b: BodyState) -> bool {
    overlapping(a, b) && a.position != b.position
}

/// The bodies after the pair `(i, j)` was visited: where the two exchange
/// velocities, each has its rebound for a velocity; otherwise nothing changes.
pub open spec fn collide_at(bodies: Seq<BodyState>, i: int, j: int) -> Seq<BodyState> {
    if exchanging(bodies[i], bodies[j]) {
        bodies.update(i, bodies[i].with_velocity(rebound(bodies[i], bodies[j]))).update(
            j,
            bodies[j].with_velocity(rebound(bodies[j], bodies[i])),
        )
    } else {
        bodies
    }
}

/// The bodies after the given pairs were visited one after the other. A later pair
/// sees the velocities that the earlier ones left.
pub open spec fn sweep(bodies: Seq<BodyState>, pairs: Seq<(int, int)>) -> Seq<BodyState>
    decreases pairs.len(),
{
    if pairs.len() == 0 {
        bodies
    } else {
        collide_at(sweep(bodies, pairs.drop_last()), pairs.last().0, pairs.last().1)
    }
}

/// `after` holds the bodies of `before`, each with the id, position, acceleration,
/// radius and mass it had: at most the velocities differ.
pub open spec fn same_but_velocities(before: Seq<BodyState>, after: Seq<BodyState>) -> bool {
    &&& after.len() == before.len()
    &&& forall|i: int|
        0 <= i < before.len() ==> #[trigger] after[i] == before[i].with_velocity(after[i].velocity)
}

/// Visiting one more pair applies `collide_at` to what the pairs before it left.
pub proof fn lemma_sweep_push(bodies: Seq<BodyState>, pairs: Seq<(int, int)>, next: (int, int))
    ensures
        sweep(bodies, pairs.push(next)) == collide_at(sweep(bodies, pairs), next.0, next.1),
{
    assert(pairs.push(next).drop_last() =~= pairs);
}

/// Visits every pair of bodies once, in the order of `all_pairs`, and lets each
/// colliding pair exchange velocities at once. A pair whose centers coincide is
/// passed over. Positions, radii, masses and ids stay as they are.
pub fn interact_bodies(world: &mut World)
    requires
        old(world).wf(),
    ensures
        final(world)@.bodies == sweep(
            old(world)@.bodies,
            all_pairs(old(world)@.bodies.len() as int),
        ),
        same_but_velocities(old(world)@.bodies, final(world)@.bodies),
        final(world)@.dimensions == old(world)@.dimensions,
        final(world).wf(),
{
    let n = world.len();
    let ghost start = world@.bodies;
    let ghost mut done: Seq<(int, int)> = Seq::empty();
    let mut i: usize = 0;
    while i < n
        invariant
            i <= n,
            n == start.len(),
            world.wf(),
            world@.bodies.len() == n,
            world@.dimensions == old(world)@.dimensions,
            world@.bodies == sweep(start, done),
            same_but_velocities(start, world@.bodies),
            done == pairs_before(i as int, n as int),
        decreases n - i,
    {
        let ghost head = done;
        let ghost row = row_pairs(i as int, n as int);
        let mut j: usize = i + 1;
        assert(done =~= head + row.take(0));
        while j < n
            invariant
                i < n,
                i < j <= n,
                n == start.len(),
                world.wf(),
                world@.bodies.len() == n,
                world@.dimensions == old(world)@.dimensions,
                world@.bodies == sweep(start, done),
                same_but_velocities(start, world@.bodies),
                head == pairs_before(i as int, n as int),
                row == row_pairs(i as int, n as int),
                done == head + row.take(j - i - 1),
            decreases n - j,
        {
            let first = world.body(i);
            let second = world.body(j);
            let ghost before = world@.bodies;
            if collides(&first, &second) {
                match elastic_collision_2(&first, &second) {
                    Ok((v1, v2)) => {
                        let mut moved1 = first;
                        moved1.set_velocity(v1);
                        let mut moved2 = second;
                        moved2.set_velocity(v2);
                        world.put(i, moved1);
                        world.put(j, moved2);
                    },
                    Err(_) => {},
                }
            }
            proof {
                assert(world@.bodies == collide_at(before, i as int, j as int));
                lemma_sweep_push(start, done, (i as int, j as int));
                assert(done.push((i as int, j as int)) =~= head + row.take(j + 1 - i - 1));
                done = done.push((i as int, j as int));
            }
            j += 1;
        }
        proof {
            assert(row.take(n - i - 1) =~= row);
        }
        i += 1;
    }
}

} // verus!
