//! Launching a body by a drag: press, pull back, release.

use vstd::prelude::*;
use crate::body::{BodyParams, BodyState};
use crate::scalar::{lemma_trunc_div_bound, trunc_div, COORD_LIMIT, UNIT};
use crate::vector::{Vec2, Vector};
use crate::world::World;

verus! {

/// The radius of a launched body.
pub const LAUNCH_RADIUS: i64 = 30 * UNIT;

/// The length of drag that gives a launched body one unit of speed.
pub const DRAG_PER_SPEED: i64 = 30;

/// Where the drag in progress began.
#[derive(Clone, Copy, Debug, PartialEq, Eq, Structural)]
pub struct ClickedPos(pub Vec2);

/// The marker that shows the launch in preparation. It sits where the drag began.
#[derive(Clone, Copy, Debug, PartialEq, Eq, Structural)]
pub struct VelArrow {
    pub pos: Vec2,
}

/// The state of the button that drags, in the current frame.
#[derive(Clone, Copy, Debug, PartialEq, Eq, Structural)]
pub struct ButtonState {
    pub just_pressed: bool,
    pub pressed: bool,
    pub just_released: bool,
}

/// The velocity of a body launched by a drag. With `delta` the vector from the end
/// of the drag back to its start, the speed is `|delta| / 30` and the direction is
/// that of `delta`: the unit vector `(-sin a, cos a)`, where `a` is the signed angle
/// from the upward axis to `delta`. Their product is `delta / 30`, here rounded
/// toward zero in each component.
pub open spec fn launch_velocity(drag_start: Vector, drag_end: Vector) -> Vector {
    let delta = drag_start.minus(drag_end);
    Vector {
        x: trunc_div(delta.x, DRAG_PER_SPEED as int),
        y: trunc_div(delta.y, DRAG_PER_SPEED as int),
    }
}

/// The body that a drag launches: it starts where the drag began, without
/// acceleration, with the launch radius and the square of it for a mass.
pub open spec fn launched(id: nat, drag_start: Vector, drag_end: Vector) -> BodyState {
    BodyState {
        id,
        position: drag_start,
        velocity: launch_velocity(drag_start, drag_end),
        acceleration: Vector { x: 0, y: 0 },
        radius: LAUNCH_RADIUS as int,
        mass: LAUNCH_RADIUS * LAUNCH_RADIUS,
    }
}

/// The bodies after a drag was released: one more where the drag has a length,
/// the same where it has none.
pub open spec fn after_launch(
    bodies: Seq<BodyState>,
    drag_start: Vector,
    drag_end: Vector,
) -> Seq<BodyState> {
    if drag_start == drag_end {
        bodies
    } else {
        bodies.push(launched(bodies.len(), drag_start, drag_end))
    }
}

/// Launches a body from `drag_start` in the direction from `drag_end` to
/// `drag_start`. A drag without length launches nothing.
pub fn spawn_impulse(world: &mut World, drag_start: Vec2, drag_end: Vec2)
    requires
        old(world).wf(),
        drag_start@.within(COORD_LIMIT as int),
        drag_end@.within(COORD_LIMIT as int),
    ensures
        final(world)@.bodies == after_launch(old(world)@.bodies, drag_start@, drag_end@),
        final(world)@.dimensions == old(world)@.dimensions,
        final(world).wf(),
{
    if drag_start.x == drag_end.x && drag_start.y == drag_end.y {
        return ;
    }
    let dx: i64 = drag_start.x - drag_end.x;
    let dy: i64 = drag_start.y - drag_end.y;
    proof {
        lemma_trunc_div_bound(dx as int, DRAG_PER_SPEED as int, 2 * COORD_LIMIT);
        lemma_trunc_div_bound(dy as int, DRAG_PER_SPEED as int, 2 * COORD_LIMIT);
    }
    let params = BodyParams {
        position: drag_start,
        velocity: Vec2 { x: dx / DRAG_PER_SPEED, y: dy / DRAG_PER_SPEED },
        acceleration: Vec2 { x: 0, y: 0 },
        radius: LAUNCH_RADIUS,
    };
    world.add_body(params);
}

/// Follows the pointer through one frame. Without a pointer position nothing
/// happens. Where the button went down in this frame, the drag begins at the
/// pointer and the arrow is set there. Where it came up in this frame, a body is
/// launched by the drag from where it began to the pointer.
pub fn body_cursor(
    world: &mut World,
    clicked_pos: &mut ClickedPos,
    arrow: &mut VelArrow,
    cursor: Option<Vec2>,
    buttons: ButtonState,
)
    requires
        old(world).wf(),
        old(clicked_pos).0@.within(COORD_LIMIT as int),
        cursor.is_some() ==> cursor.unwrap()@.within(COORD_LIMIT as int),
    ensures
        final(world).wf(),
        final(world)@.dimensions == old(world)@.dimensions,
        final(clicked_pos).0@.within(COORD_LIMIT as int),
        *final(clicked_pos) == if cursor.is_some() && buttons.just_pressed {
            ClickedPos(cursor.unwrap())
        } else {
            *old(clicked_pos)
        },
        *final(arrow) == if cursor.is_some() && buttons.just_pressed {
            (VelArrow { pos: cursor.unwrap() })
        } else {
            *old(arrow)
        },
        final(world)@.bodies == if cursor.is_some() && buttons.just_released {
            after_launch(old(world)@.bodies, final(clicked_pos).0@, cursor.unwrap()@)
        } else {
            old(world)@.bodies
        },
{
    match cursor {
        Some(pos) => {
            if buttons.just_pressed {
                arrow.pos = pos;
                clicked_pos.0 = pos;
            }
            if buttons.just_released {
                spawn_impulse(world, clicked_pos.0, pos);
            }
        },
        None => {},
    }
}

} // verus!
