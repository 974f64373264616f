//! Plane vectors: the executable `Vec2` of raw steps and its mathematical view.

use vstd::prelude::*;
use crate::scalar::clamp;

verus! {

/// A vector of the plane over the integers: what a `Vec2` stands for in contracts.
pub struct Vector {
    pub x: int,
    pub y: int,
}

impl Vector {
    pub open spec fn plus(self, other: Vector) -> Vector {
        Vector { x: self.x + other.x, y: self.y + other.y }
    }

    pub open spec fn minus(self, other: Vector) -> Vector {
        Vector { x: self.x - other.x, y: self.y - other.y }
    }

    /// The inner product.
    pub open spec fn dot(self, other: Vector) -> int {
        self.x * other.x + self.y * other.y
    }

    /// The squared Euclidean length.
    pub open spec fn norm_sq(self) -> int {
        self.x * self.x + self.y * self.y
    }

    /// Both components lie in `[-limit, limit]`.
    pub open spec fn within(self, limit: int) -> bool {
        -limit <= self.x <= limit && -limit <= self.y <= limit
    }

    /// Each component held to `[-limit, limit]`.
    pub open spec fn clamped(self, limit: int) -> Vector {
        Vector { x: clamp(self.x, limit), y: clamp(self.y, limit) }
    }
}

/// A vector of the plane in raw steps.
#[derive(Clone, Copy, Debug, PartialEq, Eq, Structural)]
pub struct Vec2 {
    pub x: i64,
    pub y: i64,
}

impl View for Vec2 {
    type V = Vector;

    open spec fn view(&self) -> Vector {
        Vector { x: self.x as int, y: self.y as int }
    }
}

impl Vec2 {
    pub fn new(x: i64, y: i64) -> (v: Vec2)
        ensures
            v@ == (Vector { x: x as int, y: y as int }),
    {
        Vec2 { x, y }
    }

    /// The zero vector.
    pub fn zero() -> (v: Vec2)
        ensures
            v@ == (Vector { x: 0, y: 0 }),
    {
        Vec2 { x: 0, y: 0 }
    }

    /// Tells whether both components lie in `[-limit, limit]`.
    pub fn is_within(&self, limit: i64) -> (r: bool)
        requires
            limit >= 0,
        ensures
            r == self@.within(limit as int),
    {
        -limit <= self.x && self.x <= limit && -limit <= self.y && self.y <= limit
    }
}

} // verus!
