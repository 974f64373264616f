//! One tick of the simulation.

use vstd::prelude::*;
use crate::collision::{interact_bodies, sweep};
use crate::motion::{move_bodies, moved};
use crate::pairs::all_pairs;
use crate::world::World;

verus! {

/// Advances the world by one tick of `dt` microseconds. First every pair of bodies
/// is visited and the colliding ones exchange velocities; then every body moves
/// freely and is reflected at the walls.
pub fn step(world: &mut World, dt: u32)
    requires
        old(world).wf(),
    ensures
        final(world)@.bodies.len() == old(world)@.bodies.len(),
        forall|i: int|
            0 <= i < old(world)@.bodies.len() ==> #[trigger] final(world)@.bodies[i] == moved(
                sweep(old(world)@.bodies, all_pairs(old(world)@.bodies.len() as int))[i],
                dt as int,
                old(world)@.dimensions,
            ),
        final(world)@.dimensions == old(world)@.dimensions,
        final(world).wf(),
{
    interact_bodies(world);
    move_bodies(world, dt);
}

} // verus!
