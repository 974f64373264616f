//! The two ways in which the simulation can fail.

use vstd::prelude::*;

verus! {

/// A failure that the caller has to handle.
#[derive(Clone, Copy, Debug, PartialEq, Eq, Structural)]
pub enum PhysicsError {
    /// Two overlapping bodies have the same center, so no collision normal exists.
    DegenerateGeometry,
    /// No free place was found for a body within the attempt budget.
    PlacementExhausted,
}

} // verus!
