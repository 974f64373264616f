//! Bodies: discs with a position, a velocity, an acceleration, a radius and a mass.

use vstd::prelude::*;
use crate::scalar::{COORD_LIMIT, RADIUS_LIMIT, SPEED_LIMIT};
use crate::vector::{Vec2, Vector};

verus! {

/// What a `Body` stands for in contracts.
pub struct BodyState {
    pub id: nat,
    pub position: Vector,
    pub velocity: Vector,
    pub acceleration: Vector,
    pub radius: int,
    pub mass: int,
}

impl BodyState {
    /// The radius is positive, the mass is its square, and every quantity is in range.
    pub open spec fn valid(self) -> bool {
        &&& 0 < self.radius <= RADIUS_LIMIT
        &&& self.mass == self.radius * self.radius
        &&& self.position.within(COORD_LIMIT as int)
        &&& self.velocity.within(SPEED_LIMIT as int)
        &&& self.acceleration.within(SPEED_LIMIT as int)
    }

    /// The mass of a valid body is positive and bounded.
    pub proof fn lemma_mass_bounds(self)
        requires
            self.valid(),
        ensures
            0 < self.mass <= RADIUS_LIMIT * RADIUS_LIMIT,
    {
        assert(0 < self.radius * self.radius <= RADIUS_LIMIT * RADIUS_LIMIT) by (nonlinear_arith)
            requires
                0 < self.radius <= RADIUS_LIMIT,
        ;
    }

    /// The same body with another velocity.
    pub open spec fn with_velocity(self, velocity: Vector) -> BodyState {
        BodyState { velocity, ..self }
    }
}

/// What a caller supplies to create a body; the id and the mass follow from it.
#[derive(Clone, Copy, Debug, PartialEq, Eq, Structural)]
pub struct BodyParams {
    pub position: Vec2,
    pub velocity: Vec2,
    pub acceleration: Vec2,
    pub radius: i64,
}

impl BodyParams {
    /// The radius is positive and every quantity is in range.
    pub open spec fn admissible(&self) -> bool {
        &&& 0 < self.radius <= RADIUS_LIMIT
        &&& self.position@.within(COORD_LIMIT as int)
        &&& self.velocity@.within(SPEED_LIMIT as int)
        &&& self.acceleration@.within(SPEED_LIMIT as int)
    }

    /// The body that these parameters describe under the given id.
    pub open spec fn state(&self, id: nat) -> BodyState {
        BodyState {
            id,
            position: self.position@,
            velocity: self.velocity@,
            acceleration: self.acceleration@,
            radius: self.radius as int,
            mass: self.radius * self.radius,
        }
    }

    /// Tells whether a body can be created from these parameters.
    pub fn is_admissible(&self) -> (r: bool)
        ensures
            r == self.admissible(),
    {
        0 < self.radius && self.radius <= RADIUS_LIMIT && self.position.is_within(COORD_LIMIT)
            && self.velocity.is_within(SPEED_LIMIT) && self.acceleration.is_within(SPEED_LIMIT)
    }
}

/// A simulated disc. Its radius and mass are fixed when it is created.
#[derive(Clone, Copy, Debug)]
pub struct Body {
    id: usize,
    position: Vec2,
    velocity: Vec2,
    acceleration: Vec2,
    radius: i64,
    mass: i64,
}

impl View for Body {
    type V = BodyState;

    closed spec fn view(&self) -> BodyState {
        BodyState {
            id: self.id as nat,
            position: self.position@,
            velocity: self.velocity@,
            acceleration: self.acceleration@,
            radius: self.radius as int,
            mass: self.mass as int,
        }
    }
}

impl Body {
    /// The invariant of every body that the library hands out.
    pub open spec fn wf(&self) -> bool {
        self@.valid()
    }

    /// Creates the body that `params` describes, with mass `radius * radius`.
    pub fn new(id: usize, params: BodyParams) -> (body: Body)
        requires
            params.admissible(),
        ensures
            body@ == params.state(id as nat),
            body.wf(),
    {
        assert(params.radius * params.radius <= RADIUS_LIMIT * RADIUS_LIMIT) by (nonlinear_arith)
            requires
                0 < params.radius <= RADIUS_LIMIT,
        ;
        Body {
            id,
            position: params.position,
            velocity: params.velocity,
            acceleration: params.acceleration,
            radius: params.radius,
            mass: params.radius * params.radius,
        }
    }

    pub fn id(&self) -> (r: usize)
        ensures
            r == self@.id,
    {
        self.id
    }

    pub fn position(&self) -> (r: Vec2)
        ensures
            r@ == self@.position,
    {
        self.position
    }

    pub fn velocity(&self) -> (r: Vec2)
        ensures
            r@ == self@.velocity,
    {
        self.velocity
    }

    pub fn acceleration(&self) -> (r: Vec2)
        ensures
            r@ == self@.acceleration,
    {
        self.acceleration
    }

    pub fn radius(&self) -> (r: i64)
        ensures
            r == self@.radius,
    {
        self.radius
    }

    pub fn mass(&self) -> (r: i64)
        ensures
            r == self@.mass,
    {
        self.mass
    }

    /// Replaces the velocity and leaves the rest as it is.
    pub(crate) fn set_velocity(&mut self, velocity: Vec2)
        ensures
            final(self)@ == old(self)@.with_velocity(velocity@),
    {
        self.velocity = velocity;
    }

    /// Replaces position, velocity and acceleration; id, radius and mass stay.
    pub(crate) fn set_motion(&mut self, position: Vec2, velocity: Vec2, acceleration: Vec2)
        ensures
            final(self)@ == (BodyState {
                position: position@,
                velocity: velocity@,
                acceleration: acceleration@,
                ..old(self)@
            }),
    {
        self.position = position;
        self.velocity = velocity;
        self.acceleration = acceleration;
    }
}

} // verus!
