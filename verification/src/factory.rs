//! The initial population: bodies of random size and velocity, placed at random
//! where they keep clear of every body placed before them.

use vstd::prelude::*;
use rand::rngs::ThreadRng;
use rand::Rng;
use crate::body::{BodyParams, BodyState};
use crate::error::PhysicsError;
use crate::scalar::{lemma_mul_bound, COORD_LIMIT, RADIUS_LIMIT, SPEED_LIMIT, UNIT};
use crate::vector::{Vec2, Vector};
use crate::world::{Dimensions, World};

verus! {

/// The number of bodies of the initial population.
pub const BODY_COUNT: usize = 200;

/// Smallest radius of a generated body.
pub const MIN_RADIUS: i64 = 5 * UNIT;

/// Largest radius of a generated body.
pub const MAX_RADIUS: i64 = 15 * UNIT;

/// Largest magnitude of a velocity component of a generated body.
pub const MAX_SPEED: i64 = 100 * UNIT;

/// The gap that a generated body keeps from every body placed before it.
pub const CLEARANCE: i64 = 5 * UNIT;

/// The number of candidate positions drawn for one body.
pub const PLACEMENT_ATTEMPTS: usize = 10_000;

/// A disc of the given radius at `position` keeps the clearance from `other`: the
/// distance of the centers is at least the sum of the radii and the clearance.
/// Both sides are non-negative, so the squares are compared.
pub open spec fn clear_of(position: Vector, radius: int, other: BodyState) -> bool {
    position.minus(other.position).norm_sq() >= (radius + other.radius + CLEARANCE) * (radius
        + other.radius + CLEARANCE)
}

/// A disc of the given radius at `position` keeps the clearance from every body.
pub open spec fn clear_of_all(position: Vector, radius: int, bodies: Seq<BodyState>) -> bool {
    forall|i: int| 0 <= i < bodies.len() ==> clear_of(position, radius, #[trigger] bodies[i])
}

/// Two bodies keep the clearance from each other.
pub open spec fn apart(a: BodyState, b: BodyState) -> bool {
    clear_of(a.position, a.radius, b)
}

/// Every two bodies keep the clearance from each other.
pub open spec fn spread_out(bodies: Seq<BodyState>) -> bool {
    forall|i: int, j: int|
        0 <= i < j < bodies.len() ==> apart(#[trigger] bodies[i], #[trigger] bodies[j])
}

/// The position lies in the region, walls included.
pub open spec fn in_region(position: Vector, dimensions: Dimensions) -> bool {
    &&& -dimensions.half_width() <= position.x <= dimensions.half_width()
    &&& -dimensions.half_height() <= position.y <= dimensions.half_height()
}

/// The body is one that generation may produce in the given region: its radius and
/// velocity are in the ranges drawn from, it has no acceleration, and its center
/// lies in the region.
pub open spec fn generated(body: BodyState, dimensions: Dimensions) -> bool {
    &&& MIN_RADIUS <= body.radius <= MAX_RADIUS
    &&& body.velocity.within(MAX_SPEED as int)
    &&& body.acceleration == (Vector { x: 0, y: 0 })
    &&& in_region(body.position, dimensions)
}

/// `bodies` is `before` followed by generated bodies, each of which keeps the
/// clearance from every body that precedes it.
pub open spec fn extends_by_generated(
    before: Seq<BodyState>,
    bodies: Seq<BodyState>,
    dimensions: Dimensions,
) -> bool {
    &&& before.len() <= bodies.len()
    &&& bodies.take(before.len() as int) == before
    &&& forall|k: int|
        before.len() <= k < bodies.len() ==> generated(#[trigger] bodies[k], dimensions)
            && clear_of_all(bodies[k].position, bodies[k].radius, bodies.take(k))
}

/// `rand::rngs::ThreadRng`: the handle of the calling thread's generator. It is
/// carried from `thread_rng` to `gen_range` and never looked into.
#[verifier::external_type_specification]
#[verifier::external_body]
pub struct ExThreadRng(rand::rngs::ThreadRng);

/// `rand::thread_rng`: the calling thread's generator, seeded by the system. Nothing
/// is claimed of it. It panics where the system has no randomness to seed it with,
/// or does not let it register what reseeds it after a fork.
#[verifier::external_body]
fn thread_rng() -> ThreadRng {
    rand::thread_rng()
}

/// `Rng::gen_range` on an inclusive range of `i64`: some value of the range. Which
/// one is left open. The range must not be empty. It panics where the generator
/// is due for new seed and the system has none to give.
#[verifier::external_body]
fn gen_range(rng: &mut ThreadRng, low: i64, high: i64) -> (value: i64)
    requires
        low <= high,
    ensures
        low <= value <= high,
{
    rng.gen_range(low..=high)
}

/// Tells whether a disc of the given radius at `position` keeps the clearance from
/// every body of the world.
pub fn is_clear(world: &World, position: Vec2, radius: i64) -> (clear: bool)
    requires
        world.wf(),
        position@.within(COORD_LIMIT as int),
        0 < radius <= RADIUS_LIMIT,
    ensures
        clear == clear_of_all(position@, radius as int, world@.bodies),
{
    let n = world.len();
    let mut i: usize = 0;
    while i < n
        invariant
            i <= n,
            n == world@.bodies.len(),
            world.wf(),
            position@.within(COORD_LIMIT as int),
            0 < radius <= RADIUS_LIMIT,
            forall|k: int|
                0 <= k < i ==> clear_of(position@, radius as int, #[trigger] world@.bodies[k]),
        decreases n - i,
    {
        let other = world.body(i);
        let center = other.position();
        let dx: i128 = position.x as i128 - center.x as i128;
        let dy: i128 = position.y as i128 - center.y as i128;
        let reach: i128 = radius as i128 + other.radius() as i128 + CLEARANCE as i128;
        proof {
            lemma_mul_bound(dx as int, dx as int, 2 * COORD_LIMIT, 2 * COORD_LIMIT);
            lemma_mul_bound(dy as int, dy as int, 2 * COORD_LIMIT, 2 * COORD_LIMIT);
            assert(0 < reach <= 205_000);
            lemma_mul_bound(reach as int, reach as int, 205_000, 205_000);
        }
        if dx * dx + dy * dy < reach * reach {
            assert(!clear_of(position@, radius as int, world@.bodies[i as int]));
            return false;
        }
        i += 1;
    }
    true
}

/// Adds the body that `params` describes if it keeps the clearance from every body
/// of the world, and tells whether it did. Otherwise the world stays as it is.
pub fn place_body(world: &mut World, params: BodyParams) -> (placed: bool)
    requires
        old(world).wf(),
        params.admissible(),
    ensures
        placed == clear_of_all(params.position@, params.radius as int, old(world)@.bodies),
        placed ==> final(world)@.bodies == old(world)@.bodies.push(
            params.state(old(world)@.bodies.len()),
        ),
        !placed ==> final(world)@.bodies == old(world)@.bodies,
        final(world)@.dimensions == old(world)@.dimensions,
        final(world).wf(),
{
    if is_clear(world, params.position, params.radius) {
        world.add_body(params);
        true
    } else {
        false
    }
}

/// The body made of one candidate position: it has the given velocity and radius
/// and no acceleration.
pub open spec fn candidate_state(
    id: nat,
    position: Vector,
    velocity: Vector,
    radius: int,
) -> BodyState {
    BodyState {
        id,
        position,
        velocity,
        acceleration: Vector { x: 0, y: 0 },
        radius,
        mass: radius * radius,
    }
}

/// Adds a body of the given radius and velocity at the first of the candidate
/// positions that keeps the clearance from every body of the world, and returns
/// the index of that candidate.
///
/// Fails with `PlacementExhausted` exactly when no candidate keeps the clearance;
/// the world then stays as it is.
pub fn place_first_clear(
    world: &mut World,
    radius: i64,
    velocity: Vec2,
    candidates: &Vec<Vec2>,
) -> (res: Result<usize, PhysicsError>)
    requires
        old(world).wf(),
        0 < radius <= RADIUS_LIMIT,
        velocity@.within(SPEED_LIMIT as int),
        forall|k: int|
            0 <= k < candidates@.len() ==> (#[trigger] candidates@[k])@.within(COORD_LIMIT as int),
    ensures
        final(world).wf(),
        final(world)@.dimensions == old(world)@.dimensions,
        res.is_err() <==> forall|k: int|
            0 <= k < candidates@.len() ==> !clear_of_all(
                (#[trigger] candidates@[k])@,
                radius as int,
                old(world)@.bodies,
            ),
        res.is_err() ==> res == Err::<usize, PhysicsError>(PhysicsError::PlacementExhausted)
            && final(world)@.bodies == old(world)@.bodies,
        res.is_ok() ==> ({
            let k = res.unwrap() as int;
            &&& k < candidates@.len()
            &&& clear_of_all(candidates@[k]@, radius as int, old(world)@.bodies)
            &&& forall|j: int|
                0 <= j < k ==> !clear_of_all(
                    (#[trigger] candidates@[j])@,
                    radius as int,
                    old(world)@.bodies,
                )
            &&& final(world)@.bodies == old(world)@.bodies.push(
                candidate_state(
                    old(world)@.bodies.len(),
                    candidates@[k]@,
                    velocity@,
                    radius as int,
                ),
            )
        }),
{
    let mut k: usize = 0;
    while k < candidates.len()
        invariant
            k <= candidates@.len(),
            world.wf(),
            world@.bodies == old(world)@.bodies,
            world@.dimensions == old(world)@.dimensions,
            0 < radius <= RADIUS_LIMIT,
            velocity@.within(SPEED_LIMIT as int),
            forall|j: int|
                0 <= j < candidates@.len() ==> (#[trigger] candidates@[j])@.within(
                    COORD_LIMIT as int,
                ),
            forall|j: int|
                0 <= j < k ==> !clear_of_all(
                    (#[trigger] candidates@[j])@,
                    radius as int,
                    old(world)@.bodies,
                ),
        decreases candidates@.len() - k,
    {
        let params = BodyParams {
            position: candidates[k],
            velocity,
            acceleration: Vec2 { x: 0, y: 0 },
            radius,
        };
        if place_body(world, params) {
            return Ok(k);
        }
        k += 1;
    }
    Err(PhysicsError::PlacementExhausted)
}

/// Draws `count` positions of the rectangle that reaches `half_width` to the left
/// and right of the origin and `half_height` below and above it.
fn draw_candidates(
    rng: &mut ThreadRng,
    half_width: i64,
    half_height: i64,
    count: usize,
) -> (drawn: Vec<Vec2>)
    requires
        0 <= half_width <= COORD_LIMIT,
        0 <= half_height <= COORD_LIMIT,
    ensures
        drawn@.len() == count,
        forall|k: int|
            0 <= k < drawn@.len() ==> -half_width <= (#[trigger] drawn@[k]).x <= half_width
                && -half_height <= drawn@[k].y <= half_height,
{
    let mut drawn: Vec<Vec2> = Vec::new();
    while drawn.len() < count
        invariant
            drawn@.len() <= count,
            0 <= half_width <= COORD_LIMIT,
            0 <= half_height <= COORD_LIMIT,
            forall|k: int|
                0 <= k < drawn@.len() ==> -half_width <= (#[trigger] drawn@[k]).x <= half_width
                    && -half_height <= drawn@[k].y <= half_height,
        decreases count - drawn@.len(),
    {
        let x = gen_range(rng, -half_width, half_width);
        let y = gen_range(rng, -half_height, half_height);
        drawn.push(Vec2 { x, y });
    }
    drawn
}

/// Adds `count` generated bodies to the world. For each, a radius, a velocity and
/// `PLACEMENT_ATTEMPTS` candidate positions in the region are drawn, and the body
/// is placed by `place_first_clear`: at the first candidate that keeps the
/// clearance from every body of the world.
///
/// Fails with `PlacementExhausted` when `place_first_clear` does: when none of the
/// candidates of one body keeps the clearance, so that some disc of the sizes drawn
/// from, somewhere in the region, comes too near a body of the world. The bodies
/// placed until then stay in the world. Nothing is drawn for `count == 0`, and the first body of an
/// empty world is placed at its first candidate.
pub fn generate_bodies(world: &mut World, count: usize) -> (res: Result<(), PhysicsError>)
    requires
        old(world).wf(),
    ensures
        final(world).wf(),
        final(world)@.dimensions == old(world)@.dimensions,
        extends_by_generated(old(world)@.bodies, final(world)@.bodies, old(world)@.dimensions),
        res.is_ok() ==> final(world)@.bodies.len() == old(world)@.bodies.len() + count,
        res.is_err() ==> res == Err::<(), PhysicsError>(PhysicsError::PlacementExhausted)
            && 0 < final(world)@.bodies.len() < old(world)@.bodies.len() + count,
        res.is_err() ==> exists|position: Vector, radius: int|
            in_region(position, old(world)@.dimensions) && MIN_RADIUS <= radius <= MAX_RADIUS
                && !#[trigger] clear_of_all(position, radius, final(world)@.bodies),
        count == 0 || (count == 1 && old(world)@.bodies.len() == 0) ==> res.is_ok(),
{
    let dimensions = world.dimensions();
    let half_width = dimensions.half_width_raw();
    let half_height = dimensions.half_height_raw();
    let ghost before = world@.bodies;
    assert(world@.bodies.take(before.len() as int) =~= before);
    if count == 0 {
        return Ok(());
    }
    let mut rng = thread_rng();
    let mut made: usize = 0;
    while made < count
        invariant
            made <= count,
            world.wf(),
            world@.dimensions == dimensions,
            dimensions == old(world)@.dimensions,
            half_width == dimensions.half_width(),
            half_height == dimensions.half_height(),
            before == old(world)@.bodies,
            world@.bodies.len() == before.len() + made,
            extends_by_generated(before, world@.bodies, dimensions),
        decreases count - made,
    {
        let radius = gen_range(&mut rng, MIN_RADIUS, MAX_RADIUS);
        let vx = gen_range(&mut rng, -MAX_SPEED, MAX_SPEED);
        let vy = gen_range(&mut rng, -MAX_SPEED, MAX_SPEED);
        let candidates = draw_candidates(&mut rng, half_width, half_height, PLACEMENT_ATTEMPTS);
        let ghost earlier = world@.bodies;
        match place_first_clear(world, radius, Vec2 { x: vx, y: vy }, &candidates) {
            Ok(_) => {
                proof {
                    let now = world@.bodies;
                    let last = earlier.len() as int;
                    assert(now.take(before.len() as int) =~= earlier.take(before.len() as int));
                    assert(now.take(last) =~= earlier);
                    assert forall|k: int| before.len() <= k < now.len() implies generated(
                        #[trigger] now[k],
                        dimensions,
                    ) && clear_of_all(now[k].position, now[k].radius, now.take(k)) by {
                        if k < last {
                            assert(now[k] == earlier[k]);
                            assert(now.take(k) =~= earlier.take(k));
                        }
                    }
                }
            },
            Err(error) => {
                assert(in_region(candidates@[0]@, dimensions) && !clear_of_all(
                    candidates@[0]@,
                    radius as int,
                    world@.bodies,
                ));
                return Err(error);
            },
        }
        made += 1;
    }
    Ok(())
}

/// Bodies of which each keeps the clearance from those before it keep it from
/// each other: the distance of every two centers is at least the sum of the two
/// radii and the clearance.
pub proof fn lemma_generated_spread_out(bodies: Seq<BodyState>, dimensions: Dimensions)
    requires
        extends_by_generated(Seq::empty(), bodies, dimensions),
    ensures
        spread_out(bodies),
{
    assert forall|i: int, j: int| 0 <= i < j < bodies.len() implies apart(
        #[trigger] bodies[i],
        #[trigger] bodies[j],
    ) by {
        assert(generated(bodies[j], dimensions));
        let earlier = bodies.take(j);
        assert(clear_of(bodies[j].position, bodies[j].radius, earlier[i]));
        assert(earlier[i] == bodies[i]);
        let d = bodies[i].position.minus(bodies[j].position);
        let e = bodies[j].position.minus(bodies[i].position);
        assert(d.norm_sq() == e.norm_sq()) by (nonlinear_arith)
            requires
                d.x == -e.x,
                d.y == -e.y,
                d.norm_sq() == d.x * d.x + d.y * d.y,
                e.norm_sq() == e.x * e.x + e.y * e.y,
        ;
    }
}

/// A world with the given region and `count` generated bodies, every two of which
/// keep the clearance from each other.
///
/// Fails with `PlacementExhausted` when `generate_bodies` does: when none of the
/// `PLACEMENT_ATTEMPTS` candidates of some body keeps the clearance, which takes a
/// body in the way: never for `count <= 1`.
pub fn initialize(dimensions: Dimensions, count: usize) -> (res: Result<World, PhysicsError>)
    requires
        dimensions.wf(),
    ensures
        res.is_ok() ==> {
            let world = res.unwrap();
            &&& world.wf()
            &&& world@.dimensions == dimensions
            &&& world@.bodies.len() == count
            &&& spread_out(world@.bodies)
            &&& forall|i: int| 0 <= i < count ==> generated(#[trigger] world@.bodies[i], dimensions)
        },
        res.is_err() ==> res.unwrap_err() == PhysicsError::PlacementExhausted,
        count <= 1 ==> res.is_ok(),
{
    let mut world = World::new(dimensions);
    match generate_bodies(&mut world, count) {
        Ok(()) => {
            proof {
                assert(world@.bodies.take(0) =~= Seq::<BodyState>::empty());
                lemma_generated_spread_out(world@.bodies, dimensions);
            }
            Ok(world)
        },
        Err(e) => Err(e),
    }
}

} // verus!

