//! The world: the bounded region and the bodies in it, in the order of their ids.

use vstd::prelude::*;
use crate::body::{Body, BodyParams, BodyState};
use crate::scalar::UNIT;
use crate::vector::Vec2;

verus! {

/// Largest width or height of the region, in world units.
pub const EXTENT_LIMIT: usize = 100_000;

/// Width and height of the region in whole world units. The region is centered on
/// the origin: it spans `[-width / 2, width / 2]` by `[-height / 2, height / 2]`.
#[derive(Clone, Copy, Debug, PartialEq, Eq, Structural)]
pub struct Dimensions(pub usize, pub usize);

impl Dimensions {
    /// Both extents are within `EXTENT_LIMIT`.
    pub open spec fn wf(&self) -> bool {
        self.0 <= EXTENT_LIMIT && self.1 <= EXTENT_LIMIT
    }

    /// Half the width in raw steps, `UNIT / 2` to the world unit: the distance of the
    /// left and right walls from the origin.
    pub open spec fn half_width(&self) -> int {
        self.0 * 500
    }

    /// Half the height in raw steps, `UNIT / 2` to the world unit: the distance of the
    /// lower and upper walls from the origin.
    pub open spec fn half_height(&self) -> int {
        self.1 * 500
    }

    /// The region of the given extents; none where an extent is over `EXTENT_LIMIT`.
    pub fn new(width: usize, height: usize) -> (res: Option<Dimensions>)
        ensures
            res.is_some() <==> width <= EXTENT_LIMIT && height <= EXTENT_LIMIT,
            res.is_some() ==> res.unwrap() == Dimensions(width, height),
    {
        if width <= EXTENT_LIMIT && height <= EXTENT_LIMIT {
            Some(Dimensions(width, height))
        } else {
            None
        }
    }

    /// Tells whether both extents are within `EXTENT_LIMIT`.
    pub fn is_wf(&self) -> (r: bool)
        ensures
            r == self.wf(),
    {
        self.0 <= EXTENT_LIMIT && self.1 <= EXTENT_LIMIT
    }

    /// Half the width in raw steps.
    pub fn half_width_raw(&self) -> (r: i64)
        requires
            self.wf(),
        ensures
            r == self.half_width(),
    {
        self.0 as i64 * (UNIT / 2)
    }

    /// Half the height in raw steps.
    pub fn half_height_raw(&self) -> (r: i64)
        requires
            self.wf(),
        ensures
            r == self.half_height(),
    {
        self.1 as i64 * (UNIT / 2)
    }
}

/// What the renderer reads of a body.
#[derive(Clone, Copy, Debug, PartialEq, Eq, Structural)]
pub struct Snapshot {
    pub id: usize,
    pub position: Vec2,
    pub radius: i64,
}

/// What a `World` stands for in contracts: its bodies by id, and its region.
pub struct WorldState {
    pub bodies: Seq<BodyState>,
    pub dimensions: Dimensions,
}

impl WorldState {
    /// Every body is valid and sits at the index that is its id; the region is in range.
    pub open spec fn valid(self) -> bool {
        &&& self.dimensions.wf()
        &&& forall|i: int|
            0 <= i < self.bodies.len() ==> (#[trigger] self.bodies[i]).valid() && self.bodies[i].id
                == i
    }
}

/// The bodies and the region that confines them. Bodies are only ever added.
#[derive(Debug)]
pub struct World {
    bodies: Vec<Body>,
    dimensions: Dimensions,
}

impl View for World {
    type V = WorldState;

    closed spec fn view(&self) -> WorldState {
        WorldState {
            bodies: Seq::new(self.bodies@.len(), |i: int| self.bodies@[i]@),
            dimensions: self.dimensions,
        }
    }
}

impl World {
    /// The invariant of every world that the library hands out.
    pub open spec fn wf(&self) -> bool {
        self@.valid()
    }

    /// An empty world with the given region.
    pub fn new(dimensions: Dimensions) -> (world: World)
        requires
            dimensions.wf(),
        ensures
            world@.bodies.len() == 0,
            world@.dimensions == dimensions,
            world.wf(),
    {
        World { bodies: Vec::new(), dimensions }
    }

    /// The region, as it was set when the world was created.
    pub fn dimensions(&self) -> (d: Dimensions)
        ensures
            d == self@.dimensions,
    {
        self.dimensions
    }

    /// The number of bodies.
    pub fn len(&self) -> (n: usize)
        ensures
            n == self@.bodies.len(),
    {
        self.bodies.len()
    }

    /// The body with the given id.
    pub fn body(&self, id: usize) -> (body: Body)
        requires
            id < self@.bodies.len(),
        ensures
            body@ == self@.bodies[id as int],
    {
        self.bodies[id]
    }

    /// All bodies in the order of their ids.
    pub fn bodies(&self) -> (all: Vec<Body>)
        ensures
            all@.len() == self@.bodies.len(),
            forall|i: int| 0 <= i < all@.len() ==> (#[trigger] all@[i])@ == self@.bodies[i],
    {
        let mut all: Vec<Body> = Vec::new();
        let mut i: usize = 0;
        while i < self.bodies.len()
            invariant
                i <= self.bodies@.len(),
                all@.len() == i,
                forall|k: int| 0 <= k < i ==> (#[trigger] all@[k])@ == self@.bodies[k],
            decreases self.bodies@.len() - i,
        {
            all.push(self.bodies[i]);
            i += 1;
        }
        all
    }

    /// Id, position and radius of every body, in the order of the ids.
    pub fn snapshots(&self) -> (all: Vec<Snapshot>)
        ensures
            all@.len() == self@.bodies.len(),
            forall|i: int|
                0 <= i < all@.len() ==> {
                    &&& (#[trigger] all@[i]).id == self@.bodies[i].id
                    &&& all@[i].position@ == self@.bodies[i].position
                    &&& all@[i].radius == self@.bodies[i].radius
                },
    {
        let mut all: Vec<Snapshot> = Vec::new();
        let mut i: usize = 0;
        while i < self.bodies.len()
            invariant
                i <= self.bodies@.len(),
                all@.len() == i,
                forall|k: int|
                    0 <= k < i ==> {
                        &&& (#[trigger] all@[k]).id == self@.bodies[k].id
                        &&& all@[k].position@ == self@.bodies[k].position
                        &&& all@[k].radius == self@.bodies[k].radius
                    },
            decreases self.bodies@.len() - i,
        {
            let body = &self.bodies[i];
            all.push(Snapshot { id: body.id(), position: body.position(), radius: body.radius() });
            i += 1;
        }
        all
    }

    /// Appends the body that `params` describes and returns its id, the number of
    /// bodies that the world held before.
    pub fn add_body(&mut self, params: BodyParams) -> (id: usize)
        requires
            old(self).wf(),
            params.admissible(),
        ensures
            id == old(self)@.bodies.len(),
            final(self)@.bodies == old(self)@.bodies.push(params.state(id as nat)),
            final(self)@.dimensions == old(self)@.dimensions,
            final(self).wf(),
    {
        let id = self.bodies.len();
        let body = Body::new(id, params);
        self.bodies.push(body);
        assert(self@.bodies =~= old(self)@.bodies.push(params.state(id as nat)));
        id
    }

    /// Replaces the body with the given id by its new state.
    pub(crate) fn put(&mut self, id: usize, body: Body)
        requires
            id < old(self)@.bodies.len(),
        ensures
            final(self)@.bodies == old(self)@.bodies.update(id as int, body@),
            final(self)@.dimensions == old(self)@.dimensions,
    {
        self.bodies[id] = body;
        assert(self@.bodies =~= old(self)@.bodies.update(id as int, body@));
    }
}

} // verus!
