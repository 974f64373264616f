use elastic_collisions::body::{Body, BodyParams};
use elastic_collisions::motion::{integrate, move_bodies, reflect};
use elastic_collisions::scalar::{COORD_LIMIT, SPEED_LIMIT, UNIT};
use elastic_collisions::tick::step;
use elastic_collisions::vector::Vec2;
use elastic_collisions::world::{Dimensions, World, EXTENT_LIMIT};

fn params(
    position: (i64, i64),
    velocity: (i64, i64),
    acceleration: (i64, i64),
    radius: i64,
) -> BodyParams {
    BodyParams {
        position: Vec2::new(position.0, position.1),
        velocity: Vec2::new(velocity.0, velocity.1),
        acceleration: Vec2::new(acceleration.0, acceleration.1),
        radius,
    }
}

fn region() -> Dimensions {
    Dimensions::new(1000, 600).unwrap()
}

#[test]
fn dimensions_are_held_to_the_extent_limit() {
    assert_eq!(
        Dimensions::new(1000, 600),
        Some(Dimensions(1000, 600))
    );
    assert!(Dimensions::new(EXTENT_LIMIT, EXTENT_LIMIT).is_some());
    assert_eq!(Dimensions::new(EXTENT_LIMIT + 1, 600), None);
    assert_eq!(Dimensions::new(1000, EXTENT_LIMIT + 1), None);
    assert!(Dimensions(1000, 600).is_wf());
    assert!(!Dimensions(EXTENT_LIMIT + 1, 600).is_wf());
    assert_eq!(region().half_width_raw(), 500 * UNIT);
    assert_eq!(region().half_height_raw(), 300 * UNIT);
}

#[test]
fn velocity_times_elapsed_time_is_added_to_the_position() {
    let mut b = Body::new(0, params((1_000, -2_000), (10 * UNIT, -5 * UNIT), (0, 0), 5 * UNIT));
    integrate(&mut b, 16_000);
    // 10000 * 0.016 = 160, -5000 * 0.016 = -80
    assert_eq!(b.position(), Vec2::new(1_160, -2_080));
    assert_eq!(b.velocity(), Vec2::new(10 * UNIT, -5 * UNIT));
}

#[test]
fn acceleration_is_added_whatever_the_elapsed_time() {
    let mut slow = Body::new(0, params((0, 0), (100, 200), (7, -9), 5 * UNIT));
    let mut fast = slow;
    integrate(&mut slow, 1);
    integrate(&mut fast, 500_000);
    assert_eq!(slow.velocity(), Vec2::new(107, 191));
    assert_eq!(fast.velocity(), Vec2::new(107, 191));
    // the position moves by the new velocity: 107 * 0.5 = 53.5, 191 * 0.5 = 95.5
    assert_eq!(fast.position(), Vec2::new(53, 95));
    assert_eq!(slow.position(), Vec2::new(0, 0));
    assert_eq!(fast.acceleration(), Vec2::new(7, -9));
}

#[test]
fn displacement_rounds_toward_zero() {
    let mut b = Body::new(0, params((0, 0), (-1_999, 1_999), (0, 0), 5 * UNIT));
    integrate(&mut b, 1_000);
    assert_eq!(b.position(), Vec2::new(-1, 1));
}

#[test]
fn no_elapsed_time_moves_nothing() {
    let mut b = Body::new(0, params((3, 4), (5_000, 6_000), (0, 0), 5 * UNIT));
    integrate(&mut b, 0);
    assert_eq!(b.position(), Vec2::new(3, 4));
}

#[test]
fn velocity_and_position_stay_in_range() {
    let mut b = Body::new(
        0,
        params((COORD_LIMIT, -COORD_LIMIT), (SPEED_LIMIT, -SPEED_LIMIT), (5, -5), 5 * UNIT),
    );
    integrate(&mut b, u32::MAX);
    assert_eq!(b.velocity(), Vec2::new(SPEED_LIMIT, -SPEED_LIMIT));
    assert_eq!(b.position(), Vec2::new(COORD_LIMIT, -COORD_LIMIT));
}

#[test]
fn body_inside_the_region_is_left_alone() {
    let mut b = Body::new(0, params((100, -200), (1, 2), (3, 4), 5 * UNIT));
    reflect(&mut b, &region());
    assert_eq!(b.position(), Vec2::new(100, -200));
    assert_eq!(b.velocity(), Vec2::new(1, 2));
    assert_eq!(b.acceleration(), Vec2::new(3, 4));
}

#[test]
fn body_touching_a_wall_is_left_alone() {
    let mut b = Body::new(0, params((-495 * UNIT, 295 * UNIT), (-1, 2), (0, 0), 5 * UNIT));
    reflect(&mut b, &region());
    assert_eq!(b.position(), Vec2::new(-495 * UNIT, 295 * UNIT));
    assert_eq!(b.velocity(), Vec2::new(-1, 2));
}

#[test]
fn left_wall_sets_back_and_turns_round() {
    let mut b = Body::new(0, params((-496 * UNIT, 0), (-7, 2), (-3, 4), 5 * UNIT));
    reflect(&mut b, &region());
    assert_eq!(b.position(), Vec2::new(-495 * UNIT, 0));
    assert_eq!(b.velocity(), Vec2::new(7, 2));
    assert_eq!(b.acceleration(), Vec2::new(3, 4));
}

#[test]
fn right_wall_sets_back_and_turns_round() {
    let mut b = Body::new(0, params((496 * UNIT, 0), (7, 2), (3, 4), 5 * UNIT));
    reflect(&mut b, &region());
    assert_eq!(b.position(), Vec2::new(495 * UNIT, 0));
    assert_eq!(b.velocity(), Vec2::new(-7, 2));
    assert_eq!(b.acceleration(), Vec2::new(-3, 4));
}

#[test]
fn lower_and_upper_walls_set_back_and_turn_round() {
    let mut low = Body::new(0, params((0, -299 * UNIT), (7, -2), (3, -4), 5 * UNIT));
    reflect(&mut low, &region());
    assert_eq!(low.position(), Vec2::new(0, -295 * UNIT));
    assert_eq!(low.velocity(), Vec2::new(7, 2));
    assert_eq!(low.acceleration(), Vec2::new(3, 4));
    let mut high = Body::new(0, params((0, 299 * UNIT), (7, 2), (3, 4), 5 * UNIT));
    reflect(&mut high, &region());
    assert_eq!(high.position(), Vec2::new(0, 295 * UNIT));
    assert_eq!(high.velocity(), Vec2::new(7, -2));
    assert_eq!(high.acceleration(), Vec2::new(3, -4));
}

#[test]
fn corner_reflects_both_axes() {
    let mut b = Body::new(0, params((-500 * UNIT, 300 * UNIT), (-7, 2), (0, 0), 5 * UNIT));
    reflect(&mut b, &region());
    assert_eq!(b.position(), Vec2::new(-495 * UNIT, 295 * UNIT));
    assert_eq!(b.velocity(), Vec2::new(7, -2));
}

#[test]
fn body_wider_than_the_region_goes_by_the_lower_wall() {
    let narrow = Dimensions::new(10, 10).unwrap();
    let mut b = Body::new(0, params((0, 0), (1, 1), (0, 0), 30 * UNIT));
    reflect(&mut b, &narrow);
    assert_eq!(b.position(), Vec2::new(25 * UNIT, 25 * UNIT));
    assert_eq!(b.velocity(), Vec2::new(-1, -1));
}

#[test]
fn body_crossing_the_left_wall_ends_the_tick_at_the_wall() {
    let mut world = World::new(region());
    world.add_body(params((-490 * UNIT, 0), (-100 * UNIT, 0), (0, 0), 5 * UNIT));
    // after free motion: x = -490 - 100 * 0.1 = -500
    move_bodies(&mut world, 100_000);
    assert_eq!(world.body(0).position(), Vec2::new(-495 * UNIT, 0));
    assert_eq!(world.body(0).velocity(), Vec2::new(100 * UNIT, 0));
}

#[test]
fn moving_keeps_ids_radii_and_masses() {
    let mut world = World::new(region());
    world.add_body(params((0, 0), (1_000, 0), (0, 0), 5 * UNIT));
    world.add_body(params((50 * UNIT, 0), (0, 2_000), (0, 0), 7 * UNIT));
    move_bodies(&mut world, 1_000_000);
    assert_eq!(world.len(), 2);
    assert_eq!(world.body(0).id(), 0);
    assert_eq!(world.body(1).id(), 1);
    assert_eq!(world.body(1).radius(), 7 * UNIT);
    assert_eq!(world.body(1).mass(), 49 * UNIT * UNIT);
    assert_eq!(world.body(0).position(), Vec2::new(1_000, 0));
    assert_eq!(world.body(1).position(), Vec2::new(50 * UNIT, 2_000));
    assert_eq!(world.dimensions(), region());
}

#[test]
fn tick_resolves_collisions_before_it_moves() {
    let mut world = World::new(region());
    world.add_body(params((0, 0), (10 * UNIT, 0), (0, 0), 10 * UNIT));
    world.add_body(params((20 * UNIT, 0), (-10 * UNIT, 0), (0, 0), 10 * UNIT));
    step(&mut world, 1_000_000);
    // the velocities are exchanged first, then each body moves for one second
    assert_eq!(world.body(0).velocity(), Vec2::new(-10 * UNIT, 0));
    assert_eq!(world.body(1).velocity(), Vec2::new(10 * UNIT, 0));
    assert_eq!(world.body(0).position(), Vec2::new(-10 * UNIT, 0));
    assert_eq!(world.body(1).position(), Vec2::new(30 * UNIT, 0));
}

#[test]
fn tick_on_an_empty_world_does_nothing() {
    let mut world = World::new(region());
    step(&mut world, 16);
    assert_eq!(world.len(), 0);
}

#[test]
fn a_frame_at_sixty_per_second_moves_by_a_sixtieth() {
    let mut b = Body::new(0, params((0, 0), (60 * UNIT, -6 * UNIT), (0, 0), 5 * UNIT));
    integrate(&mut b, 16_667);
    // 60000 * 0.016667 = 1000.02, -6000 * 0.016667 = -100.002
    assert_eq!(b.position(), Vec2::new(1_000, -100));
}
