use elastic_collisions::body::BodyParams;
use elastic_collisions::error::PhysicsError;
use elastic_collisions::factory::{
    generate_bodies, initialize, is_clear, place_body, place_first_clear, BODY_COUNT, CLEARANCE,
    MAX_RADIUS, MAX_SPEED, MIN_RADIUS, PLACEMENT_ATTEMPTS,
};
use elastic_collisions::scalar::UNIT;
use elastic_collisions::vector::Vec2;
use elastic_collisions::world::{Dimensions, World};

fn params(position: (i64, i64), radius: i64) -> BodyParams {
    BodyParams {
        position: Vec2::new(position.0, position.1),
        velocity: Vec2::zero(),
        acceleration: Vec2::zero(),
        radius,
    }
}

fn assert_spread_out(world: &World) {
    let bodies = world.bodies();
    for i in 0..bodies.len() {
        for j in (i + 1)..bodies.len() {
            let (a, b) = (&bodies[i], &bodies[j]);
            let dx = (a.position().x - b.position().x) as i128;
            let dy = (a.position().y - b.position().y) as i128;
            let reach = (a.radius() + b.radius() + CLEARANCE) as i128;
            assert!(dx * dx + dy * dy >= reach * reach);
        }
    }
}

#[test]
fn ranges_are_those_of_the_world_units() {
    assert_eq!(BODY_COUNT, 200);
    assert_eq!(MIN_RADIUS, 5_000);
    assert_eq!(MAX_RADIUS, 15_000);
    assert_eq!(MAX_SPEED, 100_000);
    assert_eq!(CLEARANCE, 5_000);
    assert_eq!(PLACEMENT_ATTEMPTS, 10_000);
}

#[test]
fn clearance_counts_both_radii_and_the_gap() {
    let mut world = World::new(Dimensions::new(1000, 600).unwrap());
    world.add_body(params((0, 0), 10 * UNIT));
    // 10 + 5 + 5 = 20 units are needed
    assert!(is_clear(&world, Vec2::new(20 * UNIT, 0), 5 * UNIT));
    assert!(!is_clear(&world, Vec2::new(20 * UNIT - 1, 0), 5 * UNIT));
    assert!(is_clear(&world, Vec2::new(-12 * UNIT, 16 * UNIT), 5 * UNIT));
    assert!(!is_clear(&world, Vec2::new(-12 * UNIT, 16 * UNIT), 5 * UNIT + 1));
}

#[test]
fn clearance_is_kept_from_every_body_not_only_the_nearest() {
    let mut world = World::new(Dimensions::new(1000, 600).unwrap());
    world.add_body(params((0, 0), 5 * UNIT));
    world.add_body(params((100 * UNIT, 0), 15 * UNIT));
    // 14 units from the first body (needs 15), far from the second
    assert!(!is_clear(&world, Vec2::new(-14 * UNIT, 0), 5 * UNIT));
    // 30 units from the first (needs 15), 70 from the second (needs 25)
    assert!(is_clear(&world, Vec2::new(30 * UNIT, 0), 5 * UNIT));
    // 24 units from the second body (needs 25), far from the first
    assert!(!is_clear(&world, Vec2::new(124 * UNIT, 0), 5 * UNIT));
}

#[test]
fn empty_world_is_clear_everywhere() {
    let world = World::new(Dimensions::new(10, 10).unwrap());
    assert!(is_clear(&world, Vec2::new(0, 0), 15 * UNIT));
}

#[test]
fn placing_adds_a_body_only_where_it_is_clear() {
    let mut world = World::new(Dimensions::new(1000, 600).unwrap());
    assert!(place_body(&mut world, params((0, 0), 10 * UNIT)));
    assert!(!place_body(&mut world, params((10 * UNIT, 0), 10 * UNIT)));
    assert_eq!(world.len(), 1);
    assert!(place_body(&mut world, params((25 * UNIT, 0), 10 * UNIT)));
    assert_eq!(world.len(), 2);
    assert_eq!(world.body(1).id(), 1);
    assert_eq!(world.body(1).position(), Vec2::new(25 * UNIT, 0));
    assert_eq!(world.body(1).mass(), 100 * UNIT * UNIT);
}

#[test]
fn initial_population_is_spread_out() {
    let dimensions = Dimensions::new(1000, 600).unwrap();
    let world = initialize(dimensions, BODY_COUNT).unwrap();
    assert_eq!(world.len(), 200);
    assert_eq!(world.dimensions(), dimensions);
    assert_spread_out(&world);
}

#[test]
fn generated_bodies_are_in_the_ranges_drawn_from() {
    let world = initialize(Dimensions::new(1000, 600).unwrap(), 100).unwrap();
    for (i, b) in world.bodies().iter().enumerate() {
        assert_eq!(b.id(), i);
        assert!(MIN_RADIUS <= b.radius() && b.radius() <= MAX_RADIUS);
        assert_eq!(b.mass(), b.radius() * b.radius());
        assert!(-MAX_SPEED <= b.velocity().x && b.velocity().x <= MAX_SPEED);
        assert!(-MAX_SPEED <= b.velocity().y && b.velocity().y <= MAX_SPEED);
        assert_eq!(b.acceleration(), Vec2::zero());
        assert!(-500 * UNIT <= b.position().x && b.position().x <= 500 * UNIT);
        assert!(-300 * UNIT <= b.position().y && b.position().y <= 300 * UNIT);
    }
}

#[test]
fn draws_differ_from_one_body_to_the_next() {
    let world = initialize(Dimensions::new(1000, 600).unwrap(), 50).unwrap();
    let bodies = world.bodies();
    let first = bodies[0];
    assert!(bodies.iter().any(|b| b.radius() != first.radius()));
    assert!(bodies.iter().any(|b| b.velocity() != first.velocity()));
    assert!(bodies.iter().any(|b| b.position().x != first.position().x));
    assert!(bodies.iter().any(|b| b.position().y != first.position().y));
}

#[test]
fn no_body_and_one_body_always_fit() {
    let tiny = Dimensions::new(0, 0).unwrap();
    assert_eq!(initialize(tiny, 0).unwrap().len(), 0);
    let world = initialize(tiny, 1).unwrap();
    assert_eq!(world.len(), 1);
    assert_eq!(world.body(0).position(), Vec2::new(0, 0));
}

#[test]
fn crowded_region_exhausts_the_placement() {
    // centers lie within 5 units of the origin, and two bodies need 15 units at least
    let tiny = Dimensions::new(10, 10).unwrap();
    assert_eq!(initialize(tiny, 2).err(), Some(PhysicsError::PlacementExhausted));
}

#[test]
fn failed_generation_keeps_the_bodies_placed_until_then() {
    let mut world = World::new(Dimensions::new(10, 10).unwrap());
    assert_eq!(
        generate_bodies(&mut world, 5),
        Err(PhysicsError::PlacementExhausted)
    );
    assert_eq!(world.len(), 1);
}

#[test]
fn generation_keeps_clear_of_the_bodies_that_were_there() {
    let mut world = World::new(Dimensions::new(1000, 600).unwrap());
    world.add_body(params((0, 0), 100 * UNIT));
    assert_eq!(generate_bodies(&mut world, 30), Ok(()));
    assert_eq!(world.len(), 31);
    assert_eq!(world.body(0).radius(), 100 * UNIT);
    assert_spread_out(&world);
}

#[test]
fn first_clear_candidate_is_taken() {
    let mut world = World::new(Dimensions::new(1000, 600).unwrap());
    world.add_body(params((0, 0), 10 * UNIT));
    let candidates = vec![
        Vec2::new(5 * UNIT, 0),
        Vec2::new(20 * UNIT - 1, 0),
        Vec2::new(0, 20 * UNIT),
        Vec2::new(100 * UNIT, 0),
    ];
    let velocity = Vec2::new(3, -4);
    assert_eq!(place_first_clear(&mut world, 5 * UNIT, velocity, &candidates), Ok(2));
    assert_eq!(world.len(), 2);
    let placed = world.body(1);
    assert_eq!(placed.id(), 1);
    assert_eq!(placed.position(), Vec2::new(0, 20 * UNIT));
    assert_eq!(placed.velocity(), velocity);
    assert_eq!(placed.acceleration(), Vec2::zero());
    assert_eq!(placed.radius(), 5 * UNIT);
    assert_eq!(placed.mass(), 25 * UNIT * UNIT);
}

#[test]
fn placement_is_exhausted_when_no_candidate_is_clear() {
    let mut world = World::new(Dimensions::new(1000, 600).unwrap());
    world.add_body(params((0, 0), 10 * UNIT));
    let candidates = vec![Vec2::new(5 * UNIT, 0), Vec2::new(0, -19 * UNIT), Vec2::new(0, 0)];
    assert_eq!(
        place_first_clear(&mut world, 5 * UNIT, Vec2::zero(), &candidates),
        Err(PhysicsError::PlacementExhausted)
    );
    assert_eq!(world.len(), 1);
    assert_eq!(world.body(0).position(), Vec2::new(0, 0));
}

#[test]
fn placement_without_candidates_is_exhausted() {
    let mut world = World::new(Dimensions::new(1000, 600).unwrap());
    assert_eq!(
        place_first_clear(&mut world, 5 * UNIT, Vec2::zero(), &vec![]),
        Err(PhysicsError::PlacementExhausted)
    );
    assert_eq!(world.len(), 0);
}

#[test]
fn empty_world_takes_the_first_candidate() {
    let mut world = World::new(Dimensions::new(1000, 600).unwrap());
    let candidates = vec![Vec2::new(7, 8), Vec2::new(9, 10)];
    assert_eq!(place_first_clear(&mut world, 5 * UNIT, Vec2::zero(), &candidates), Ok(0));
    assert_eq!(world.body(0).position(), Vec2::new(7, 8));
}
