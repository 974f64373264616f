//! Ballistic motion over one tick and reflection at the walls of the region.

use vstd::prelude::*;
use crate::body::{Body, BodyState};
use crate::scalar::{
    clamp, lemma_mul_bound, lemma_trunc_div_bound, saturate, trunc_div, COORD_LIMIT, SPEED_LIMIT,
    MICROS_PER_SECOND,
};
use crate::vector::{Vec2, Vector};
use crate::world::{Dimensions, World};

verus! {

/// The body after `dt` microseconds of free motion. The acceleration is added to
/// the velocity as it is, whatever the elapsed time; the new velocity times the
/// elapsed time, `dt / MICROS_PER_SECOND` seconds, is added to the position.
pub open spec fn integrated(body: BodyState, dt: int) -> BodyState {
    let velocity = body.velocity.plus(body.acceleration).clamped(SPEED_LIMIT as int);
    let position = Vector {
        x: clamp(
            body.position.x + trunc_div(velocity.x * dt, MICROS_PER_SECOND as int),
            COORD_LIMIT as int,
        ),
        y: clamp(
            body.position.y + trunc_div(velocity.y * dt, MICROS_PER_SECOND as int),
            COORD_LIMIT as int,
        ),
    };
    BodyState { position, velocity, ..body }
}

/// Position, velocity and acceleration along one axis after reflection at the walls
/// at `-half` and `half`. A disc that reaches over a wall is set back to touch it
/// from inside, and its velocity and acceleration turn round. The lower wall is
/// looked at first, and the upper one only if the lower one was not crossed.
pub open spec fn reflect_axis(p: int, v: int, a: int, radius: int, half: int) -> (int, int, int) {
    if p - radius < -half {
        (-half + radius, -v, -a)
    } else if p + radius > half {
        (half - radius, -v, -a)
    } else {
        (p, v, a)
    }
}

/// The body after reflection at the four walls, each axis by itself.
pub open spec fn reflected(body: BodyState, dimensions: Dimensions) -> BodyState {
    let x = reflect_axis(
        body.position.x,
        body.velocity.x,
        body.acceleration.x,
        body.radius,
        dimensions.half_width(),
    );
    let y = reflect_axis(
        body.position.y,
        body.velocity.y,
        body.acceleration.y,
        body.radius,
        dimensions.half_height(),
    );
    BodyState {
        position: Vector { x: x.0, y: y.0 },
        velocity: Vector { x: x.1, y: y.1 },
        acceleration: Vector { x: x.2, y: y.2 },
        ..body
    }
}

/// The body after one tick of motion: free motion, then reflection.
pub open spec fn moved(body: BodyState, dt: int, dimensions: Dimensions) -> BodyState {
    reflected(integrated(body, dt), dimensions)
}

/// One coordinate after `dt` microseconds at velocity `v`.
fn advance_coordinate(p: i64, v: i64, dt: u32) -> (out: i64)
    requires
        -COORD_LIMIT <= p <= COORD_LIMIT,
        -SPEED_LIMIT <= v <= SPEED_LIMIT,
    ensures
        out == clamp(p + trunc_div(v * dt, MICROS_PER_SECOND as int), COORD_LIMIT as int),
{
    proof {
        lemma_mul_bound(v as int, dt as int, SPEED_LIMIT as int, 0x1_0000_0000);
        lemma_trunc_div_bound(v * dt, MICROS_PER_SECOND as int, SPEED_LIMIT * 0x1_0000_0000);
    }
    let step: i128 = (v as i128 * dt as i128) / (MICROS_PER_SECOND as i128);
    saturate(p as i128 + step, COORD_LIMIT)
}

/// Advances a body by `dt` microseconds of free motion.
pub fn integrate(body: &mut Body, dt: u32)
    requires
        old(body).wf(),
    ensures
        final(body)@ == integrated(old(body)@, dt as int),
        final(body).wf(),
{
    let v = body.velocity();
    let a = body.acceleration();
    let p = body.position();
    let velocity = Vec2 {
        x: saturate(v.x as i128 + a.x as i128, SPEED_LIMIT),
        y: saturate(v.y as i128 + a.y as i128, SPEED_LIMIT),
    };
    let position = Vec2 {
        x: advance_coordinate(p.x, velocity.x, dt),
        y: advance_coordinate(p.y, velocity.y, dt),
    };
    body.set_motion(position, velocity, a);
}

/// Reflects position, velocity and acceleration along one axis.
fn reflect_coordinate(p: i64, v: i64, a: i64, radius: i64, half: i64) -> (out: (i64, i64, i64))
    requires
        -COORD_LIMIT <= p <= COORD_LIMIT,
        -SPEED_LIMIT <= v <= SPEED_LIMIT,
        -SPEED_LIMIT <= a <= SPEED_LIMIT,
        0 < radius,
        0 <= half,
        half + radius <= COORD_LIMIT,
    ensures
        (out.0 as int, out.1 as int, out.2 as int) == reflect_axis(
            p as int,
            v as int,
            a as int,
            radius as int,
            half as int,
        ),
        -COORD_LIMIT <= out.0 <= COORD_LIMIT,
        -SPEED_LIMIT <= out.1 <= SPEED_LIMIT,
        -SPEED_LIMIT <= out.2 <= SPEED_LIMIT,
{
    if p - radius < -half {
        (-half + radius, -v, -a)
    } else if p + radius > half {
        (half - radius, -v, -a)
    } else {
        (p, v, a)
    }
}

/// Sets a body that reaches over a wall back inside and turns it round.
pub fn reflect(body: &mut Body, dimensions: &Dimensions)
    requires
        old(body).wf(),
        dimensions.wf(),
    ensures
        final(body)@ == reflected(old(body)@, *dimensions),
        final(body).wf(),
{
    let p = body.position();
    let v = body.velocity();
    let a = body.acceleration();
    let radius = body.radius();
    let x = reflect_coordinate(p.x, v.x, a.x, radius, dimensions.half_width_raw());
    let y = reflect_coordinate(p.y, v.y, a.y, radius, dimensions.half_height_raw());
    body.set_motion(Vec2 { x: x.0, y: y.0 }, Vec2 { x: x.1, y: y.1 }, Vec2 { x: x.2, y: y.2 });
}

/// Moves every body through one tick of `dt` microseconds: free motion, then
/// reflection at the walls of the world's region.
pub fn move_bodies(world: &mut World, dt: u32)
    requires
        old(world).wf(),
    ensures
        final(world)@.bodies.len() == old(world)@.bodies.len(),
        forall|i: int|
            0 <= i < old(world)@.bodies.len() ==> #[trigger] final(world)@.bodies[i] == moved(
                old(world)@.bodies[i],
                dt as int,
                old(world)@.dimensions,
            ),
        final(world)@.dimensions == old(world)@.dimensions,
        final(world).wf(),
{
    let n = world.len();
    let dimensions = world.dimensions();
    let mut i: usize = 0;
    while i < n
        invariant
            i <= n,
            n == old(world)@.bodies.len(),
            world@.bodies.len() == n,
            world.wf(),
            dimensions == old(world)@.dimensions,
            world@.dimensions == dimensions,
            forall|k: int|
                0 <= k < i ==> #[trigger] world@.bodies[k] == moved(
                    old(world)@.bodies[k],
                    dt as int,
                    dimensions,
                ),
            forall|k: int| i <= k < n ==> #[trigger] world@.bodies[k] == old(world)@.bodies[k],
        decreases n - i,
    {
        let mut body = world.body(i);
        integrate(&mut body, dt);
        reflect(&mut body, &dimensions);
        world.put(i, body);
        i += 1;
    }
}

/// A body that free motion carries over the left wall ends the tick touching that
/// wall from inside, with the horizontal velocity it had after free motion turned
/// round: for a body without acceleration, the velocity it began the tick with.
/// The crossing is judged on the position in raw steps, rounded as `integrated`
/// rounds it.
pub proof fn lemma_left_wall_reflects(body: BodyState, dt: int, dimensions: Dimensions)
    requires
        body.valid(),
        dimensions.wf(),
        integrated(body, dt).position.x - body.radius < -dimensions.half_width(),
    ensures
        moved(body, dt, dimensions).position.x == -dimensions.half_width() + body.radius,
        moved(body, dt, dimensions).velocity.x == -integrated(body, dt).velocity.x,
        moved(body, dt, dimensions).acceleration.x == -body.acceleration.x,
        body.acceleration.x == 0 ==> moved(body, dt, dimensions).velocity.x == -body.velocity.x,
{
}

/// After a tick of motion a body that fits between the walls lies between them,
/// wherever it was and however fast it moved.
pub proof fn lemma_moved_inside(body: BodyState, dt: int, dimensions: Dimensions)
    requires
        body.valid(),
        dimensions.wf(),
        body.radius <= dimensions.half_width(),
        body.radius <= dimensions.half_height(),
    ensures
        -dimensions.half_width() <= moved(body, dt, dimensions).position.x - body.radius,
        moved(body, dt, dimensions).position.x + body.radius <= dimensions.half_width(),
        -dimensions.half_height() <= moved(body, dt, dimensions).position.y - body.radius,
        moved(body, dt, dimensions).position.y + body.radius <= dimensions.half_height(),
{
}

} // verus!
