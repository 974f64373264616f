use elastic_collisions::body::{Body, BodyParams};
use elastic_collisions::collision::{collides, elastic_collision_2, interact_bodies};
use elastic_collisions::error::PhysicsError;
use elastic_collisions::scalar::{SPEED_LIMIT, UNIT};
use elastic_collisions::vector::Vec2;
use elastic_collisions::world::{Dimensions, World};

fn body(id: usize, position: (i64, i64), velocity: (i64, i64), radius: i64) -> Body {
    Body::new(id, params(position, velocity, radius))
}

fn params(position: (i64, i64), velocity: (i64, i64), radius: i64) -> BodyParams {
    BodyParams {
        position: Vec2::new(position.0, position.1),
        velocity: Vec2::new(velocity.0, velocity.1),
        acceleration: Vec2::zero(),
        radius,
    }
}

fn momentum(a: &Body, va: Vec2, b: &Body, vb: Vec2) -> (i128, i128) {
    let (ma, mb) = (a.mass() as i128, b.mass() as i128);
    (
        ma * va.x as i128 + mb * vb.x as i128,
        ma * va.y as i128 + mb * vb.y as i128,
    )
}

fn twice_energy(a: &Body, va: Vec2, b: &Body, vb: Vec2) -> i128 {
    let (ma, mb) = (a.mass() as i128, b.mass() as i128);
    let sq = |v: Vec2| (v.x as i128) * (v.x as i128) + (v.y as i128) * (v.y as i128);
    ma * sq(va) + mb * sq(vb)
}

#[test]
fn mass_is_radius_squared() {
    let b = body(0, (0, 0), (0, 0), 10 * UNIT);
    assert_eq!(b.radius(), 10_000);
    assert_eq!(b.mass(), 100 * UNIT * UNIT);
    assert_eq!(b.id(), 0);
}

#[test]
fn equal_mass_head_on_collision_exchanges_velocities() {
    let a = body(0, (0, 0), (10 * UNIT, 0), 10 * UNIT);
    let b = body(1, (20 * UNIT, 0), (-10 * UNIT, 0), 10 * UNIT);
    assert!(collides(&a, &b));
    let (v1, v2) = elastic_collision_2(&a, &b).unwrap();
    assert_eq!(v1, Vec2::new(-10 * UNIT, 0));
    assert_eq!(v2, Vec2::new(10 * UNIT, 0));
}

#[test]
fn detection_shrinks_the_distance_by_two_percent() {
    let a = body(0, (0, 0), (0, 0), 10 * UNIT);
    // 20408 * 0.98 = 19999.84 < 20000
    assert!(collides(&a, &body(1, (20_408, 0), (0, 0), 10 * UNIT)));
    // 20409 * 0.98 = 20000.82 >= 20000
    assert!(!collides(&a, &body(1, (20_409, 0), (0, 0), 10 * UNIT)));
    assert!(!collides(&a, &body(1, (0, -20_409), (0, 0), 10 * UNIT)));
    // a 3-4-5 triangle: distance 25000
    assert!(!collides(&a, &body(1, (15_000, 20_000), (0, 0), 10 * UNIT)));
    assert!(collides(&a, &body(1, (15_000, 20_000), (0, 0), 15 * UNIT)));
}

#[test]
fn detection_is_symmetric_and_leaves_the_bodies_alone() {
    let a = body(0, (0, 0), (1, 2), 10 * UNIT);
    let b = body(1, (12_000, 9_000), (3, 4), 5 * UNIT);
    assert_eq!(collides(&a, &b), collides(&b, &a));
    assert!(collides(&a, &b));
    assert_eq!(a.velocity(), Vec2::new(1, 2));
    assert_eq!(b.position(), Vec2::new(12_000, 9_000));
}

#[test]
fn coincident_centers_are_degenerate() {
    let a = body(0, (5, 7), (10, 0), 10 * UNIT);
    let b = body(1, (5, 7), (-10, 0), 3 * UNIT);
    assert_eq!(
        elastic_collision_2(&a, &b),
        Err(PhysicsError::DegenerateGeometry)
    );
}

#[test]
fn unequal_masses_follow_the_projection_formula() {
    // m1 = 1e8 (radius 10), m2 = 4e8 (radius 20), centers on the x axis
    let a = body(0, (0, 0), (9_000, 3_000), 10 * UNIT);
    let b = body(1, (25 * UNIT, 0), (-6_000, 1_000), 20 * UNIT);
    // r = (-25000, 0), v1 - v2 = (15000, 2000), dot = -3.75e8, |r|^2 = 6.25e8
    // v1' = v1 - (2 * 4 / 5) * (-0.6) * r = (9000 - 24000, 3000)
    // v2' = v2 - (2 * 1 / 5) * (-0.6) * (-r) = (-6000 + 6000, 1000)
    let (v1, v2) = elastic_collision_2(&a, &b).unwrap();
    assert_eq!(v1, Vec2::new(-15_000, 3_000));
    assert_eq!(v2, Vec2::new(0, 1_000));
}

#[test]
fn exact_collision_conserves_momentum_and_energy() {
    let a = body(0, (0, 0), (9_000, 3_000), 10 * UNIT);
    let b = body(1, (25 * UNIT, 0), (-6_000, 1_000), 20 * UNIT);
    let (v1, v2) = elastic_collision_2(&a, &b).unwrap();
    assert_eq!(
        momentum(&a, v1, &b, v2),
        momentum(&a, a.velocity(), &b, b.velocity())
    );
    assert_eq!(
        twice_energy(&a, v1, &b, v2),
        twice_energy(&a, a.velocity(), &b, b.velocity())
    );
}

#[test]
fn rounded_collision_conserves_within_tolerance() {
    let a = body(0, (1_234, -567), (7_001, -3_333), 7_123);
    let b = body(1, (9_876, 5_432), (-4_999, 2_221), 11_987);
    assert!(collides(&a, &b));
    let (v1, v2) = elastic_collision_2(&a, &b).unwrap();
    let before = momentum(&a, a.velocity(), &b, b.velocity());
    let after = momentum(&a, v1, &b, v2);
    let heavier = a.mass().max(b.mass()) as i128;
    assert!((after.0 - before.0).abs() < heavier);
    assert!((after.1 - before.1).abs() < heavier);
    let tolerance = a.mass() as i128 * (2 * (v1.x.abs() + v1.y.abs()) as i128 + 2)
        + b.mass() as i128 * (2 * (v2.x.abs() + v2.y.abs()) as i128 + 2);
    let change =
        twice_energy(&a, v1, &b, v2) - twice_energy(&a, a.velocity(), &b, b.velocity());
    assert!(change.abs() <= tolerance);
    assert_ne!(v1, a.velocity());
    assert_ne!(v2, b.velocity());
}

#[test]
fn quotients_round_toward_zero() {
    // equal masses, r = (-3, 0), v1 - v2 = (10, 0): exact impulse on the first body is
    // 1 * (-30 / 9) * (-3) = 10 along x, so the bodies exchange velocities exactly
    let a = body(0, (0, 0), (10, 0), UNIT);
    let b = body(1, (3, 0), (0, 0), UNIT);
    let (v1, v2) = elastic_collision_2(&a, &b).unwrap();
    assert_eq!((v1, v2), (Vec2::new(0, 0), Vec2::new(10, 0)));
    // r = (-3, -3), v1 - v2 = (10, 0): impulse on the first body is (5, 5)
    let c = body(1, (3, 3), (0, 0), UNIT);
    let (v1, v2) = elastic_collision_2(&a, &c).unwrap();
    assert_eq!((v1, v2), (Vec2::new(5, -5), Vec2::new(5, 5)));
    // r = (-3, -2), dot = -30, |r|^2 = 13: impulse (90 / 13, 60 / 13) rounds to (6, 4)
    let d = body(1, (3, 2), (0, 0), UNIT);
    let (v1, v2) = elastic_collision_2(&a, &d).unwrap();
    assert_eq!((v1, v2), (Vec2::new(4, -4), Vec2::new(6, 4)));
}

#[test]
fn rebound_stays_at_the_speed_limit() {
    // a heavy body at full speed hits a light one at rest: the light one would leave
    // with nearly twice the speed limit
    let a = body(0, (0, 0), (SPEED_LIMIT, 0), 100 * UNIT);
    let b = body(1, (50 * UNIT, 0), (0, 0), UNIT);
    let (_, v2) = elastic_collision_2(&a, &b).unwrap();
    assert_eq!(v2, Vec2::new(SPEED_LIMIT, 0));
}

#[test]
fn separated_bodies_keep_their_velocities() {
    let mut world = World::new(Dimensions::new(1000, 600).unwrap());
    world.add_body(params((0, 0), (10 * UNIT, 0), 10 * UNIT));
    world.add_body(params((100 * UNIT, 0), (-10 * UNIT, 0), 10 * UNIT));
    interact_bodies(&mut world);
    assert_eq!(world.body(0).velocity(), Vec2::new(10 * UNIT, 0));
    assert_eq!(world.body(1).velocity(), Vec2::new(-10 * UNIT, 0));
}

#[test]
fn colliding_pair_in_a_world_exchanges_velocities() {
    let mut world = World::new(Dimensions::new(1000, 600).unwrap());
    world.add_body(params((0, 0), (10 * UNIT, 0), 10 * UNIT));
    world.add_body(params((20 * UNIT, 0), (-10 * UNIT, 0), 10 * UNIT));
    interact_bodies(&mut world);
    assert_eq!(world.body(0).velocity(), Vec2::new(-10 * UNIT, 0));
    assert_eq!(world.body(1).velocity(), Vec2::new(10 * UNIT, 0));
    // positions are not separated
    assert_eq!(world.body(0).position(), Vec2::new(0, 0));
    assert_eq!(world.body(1).position(), Vec2::new(20 * UNIT, 0));
}

#[test]
fn coincident_pair_in_a_world_is_passed_over() {
    let mut world = World::new(Dimensions::new(1000, 600).unwrap());
    world.add_body(params((0, 0), (10 * UNIT, 0), 10 * UNIT));
    world.add_body(params((0, 0), (-10 * UNIT, 0), 10 * UNIT));
    interact_bodies(&mut world);
    assert_eq!(world.body(0).velocity(), Vec2::new(10 * UNIT, 0));
    assert_eq!(world.body(1).velocity(), Vec2::new(-10 * UNIT, 0));
}

#[test]
fn later_pair_sees_the_velocity_that_an_earlier_pair_left() {
    // A touches B on its right and C above it; B and C are apart.
    let mut world = World::new(Dimensions::new(1000, 600).unwrap());
    world.add_body(params((0, 0), (10 * UNIT, 10 * UNIT), 10 * UNIT));
    world.add_body(params((20 * UNIT, 0), (0, 0), 10 * UNIT));
    world.add_body(params((0, 20 * UNIT), (0, 0), 10 * UNIT));
    interact_bodies(&mut world);
    // (A, B): A gives its x velocity to B and keeps (0, 10).
    // (A, C): A, now at (0, 10), gives its y velocity to C.
    // (B, C): apart.
    assert_eq!(world.body(0).velocity(), Vec2::new(0, 0));
    assert_eq!(world.body(1).velocity(), Vec2::new(10 * UNIT, 0));
    assert_eq!(world.body(2).velocity(), Vec2::new(0, 10 * UNIT));
}

fn parting_rate(a: &Body, va: Vec2, b: &Body, vb: Vec2) -> i128 {
    let rx = (a.position().x - b.position().x) as i128;
    let ry = (a.position().y - b.position().y) as i128;
    (va.x - vb.x) as i128 * rx + (va.y - vb.y) as i128 * ry
}

fn with_velocity(b: &Body, velocity: Vec2) -> Body {
    Body::new(
        b.id(),
        BodyParams {
            position: b.position(),
            velocity,
            acceleration: b.acceleration(),
            radius: b.radius(),
        },
    )
}

#[test]
fn exact_collision_turns_the_parting_rate_round() {
    let a = body(0, (0, 0), (9_000, 3_000), 10 * UNIT);
    let b = body(1, (25 * UNIT, 0), (-6_000, 1_000), 20 * UNIT);
    let (v1, v2) = elastic_collision_2(&a, &b).unwrap();
    let before = parting_rate(&a, a.velocity(), &b, b.velocity());
    assert_eq!(before, -375_000_000);
    assert_eq!(parting_rate(&a, v1, &b, v2), 375_000_000);
}

#[test]
fn rounded_collision_turns_the_parting_rate_round_within_tolerance() {
    let a = body(0, (1_234, -567), (7_001, -3_333), 7_123);
    let b = body(1, (9_876, 5_432), (-4_999, 2_221), 11_987);
    let (v1, v2) = elastic_collision_2(&a, &b).unwrap();
    let before = parting_rate(&a, a.velocity(), &b, b.velocity());
    let after = parting_rate(&a, v1, &b, v2);
    assert!(before < 0 && after > 0);
    let tolerance = 2 * ((1_234i128 - 9_876).abs() + (-567i128 - 5_432).abs());
    assert!((after + before).abs() <= tolerance);
}

#[test]
fn second_exact_collision_restores_the_velocities() {
    let a = body(0, (0, 0), (9_000, 3_000), 10 * UNIT);
    let b = body(1, (25 * UNIT, 0), (-6_000, 1_000), 20 * UNIT);
    let (v1, v2) = elastic_collision_2(&a, &b).unwrap();
    let (a2, b2) = (with_velocity(&a, v1), with_velocity(&b, v2));
    let (w1, w2) = elastic_collision_2(&a2, &b2).unwrap();
    assert_eq!(w1, a.velocity());
    assert_eq!(w2, b.velocity());
}

#[test]
fn sweep_conserves_the_totals() {
    // A touches B on its right and C above it; B and C are apart. Every quotient is even.
    let mut world = World::new(Dimensions::new(1000, 600).unwrap());
    world.add_body(params((0, 0), (10 * UNIT, 10 * UNIT), 10 * UNIT));
    world.add_body(params((20 * UNIT, 0), (-2 * UNIT, UNIT), 10 * UNIT));
    world.add_body(params((0, 20 * UNIT), (3 * UNIT, -4 * UNIT), 10 * UNIT));
    let totals = |w: &World| {
        let mut p = (0i128, 0i128);
        let mut e = 0i128;
        for b in w.bodies() {
            let (m, vx, vy) = (b.mass() as i128, b.velocity().x as i128, b.velocity().y as i128);
            p = (p.0 + m * vx, p.1 + m * vy);
            e += m * (vx * vx + vy * vy);
        }
        (p, e)
    };
    let before = totals(&world);
    interact_bodies(&mut world);
    assert_eq!(totals(&world), before);
    assert_ne!(world.body(0).velocity(), Vec2::new(10 * UNIT, 10 * UNIT));
}

#[test]
fn sweep_conserves_the_total_momentum_within_tolerance() {
    let mut world = World::new(Dimensions::new(1000, 600).unwrap());
    world.add_body(params((1_234, -567), (7_001, -3_333), 7_123));
    world.add_body(params((9_876, 5_432), (-4_999, 2_221), 11_987));
    world.add_body(params((-8_765, 4_321), (1_357, 2_468), 9_001));
    let total = |w: &World| {
        w.bodies().iter().fold((0i128, 0i128), |p, b| {
            let m = b.mass() as i128;
            (p.0 + m * b.velocity().x as i128, p.1 + m * b.velocity().y as i128)
        })
    };
    let before = total(&world);
    interact_bodies(&mut world);
    let after = total(&world);
    // three pairs at most, each within the larger mass of the pair
    let tolerance = 3 * 11_987i128 * 11_987;
    assert!((after.0 - before.0).abs() <= tolerance);
    assert!((after.1 - before.1).abs() <= tolerance);
    assert_ne!(after, (0, 0));
}
