//! The asteroid body: an immutable local-space polygon coupled with a handle
//! into the external physics engine, and the per-frame transform of its
//! vertex loop into world space.
//!
//! The engine owns all position and rotation state; the body holds only the
//! handle and reads the state back each frame. The surrounding application
//! builds the engine's rigid body and compound collider (from
//! `triangle_vertices` of the shape) and resolves the handle to the current
//! position and rotation before each draw.
use vstd::prelude::*;

use crate::geometry::GeometryError;
use crate::geometry::Point2;
use crate::geometry::in_bounds;
use crate::polygons::Polygon;
use crate::transform::Rotation;
use crate::transform::to_world;
use crate::transform::world_of;

verus! {

/// An opaque reference into the physics engine's rigid-body table: an arena
/// index and the generation that guards against reuse. The engine issues it
/// at insertion; the geometry core never dereferences it itself.
#[derive(Clone, Copy, PartialEq, Eq, Structural, Debug)]
pub struct BodyHandle {
    pub index: u32,
    pub generation: u32,
}

/// A rigid polygonal body: its local-space shape, vertices relative to the
/// body's own origin, and the engine handle its simulated state lives under.
pub struct Asteroid {
    shape: Polygon,
    body_handle: BodyHandle,
}

impl Asteroid {
    /// The shape is a well-formed vertex loop.
    pub closed spec fn wf(&self) -> bool {
        self.shape.wf()
    }

    /// The local-space vertex loop, as a sequence.
    pub closed spec fn shape_seq(&self) -> Seq<Point2> {
        self.shape@
    }

    /// The engine handle.
    pub closed spec fn spec_handle(&self) -> BodyHandle {
        self.body_handle
    }

    /// Couples a generated shape with the handle the physics engine issued
    /// for it. The shape is stored unchanged and never mutated afterward.
    pub fn new(shape: Polygon, body_handle: BodyHandle) -> (r: Asteroid)
        ensures
            r.shape_seq() == shape@,
            r.spec_handle() == body_handle,
            shape.wf() ==> r.wf(),
    {
        Asteroid { shape, body_handle }
    }

    /// The engine handle of this body.
    pub fn get_rigid_body_handle(&self) -> (r: BodyHandle)
        ensures
            r == self.spec_handle(),
    {
        self.body_handle
    }

    /// The local-space shape.
    pub fn get_shape(&self) -> (r: &Polygon)
        ensures
            r@ == self.shape_seq(),
    {
        &self.shape
    }

    /// The world-space vertex loop for one frame: every local vertex carried
    /// through the body's current transform, in order. The caller passes the
    /// engine's answer for this body's handle; a handle that no longer
    /// resolves (`None`) is a lifetime error, surfaced as `StaleHandle` and
    /// never a default transform.
    pub fn draw(&self, frame: Option<(Point2, Rotation)>) -> (r: Result<
        Vec<Point2>,
        GeometryError,
    >)
        requires
            self.wf(),
            frame matches Some(f) ==> f.1.wf() && in_bounds(f.0),
        ensures
            r is Err <==> frame is None,
            r is Err ==> r->Err_0 == GeometryError::StaleHandle,
            frame matches Some(f) ==> r matches Ok(ws) && ws@.len() == self.shape_seq().len()
                && (forall|i: int|
                0 <= i < ws@.len() ==> #[trigger] ws@[i] == world_of(self.shape_seq()[i], f.0, f.1)),
    {
        let (position, rotation) = match frame {
            Some(f) => f,
            None => {
                return Err(GeometryError::StaleHandle);
            },
        };
        let verts = self.shape.vertices();
        let n = verts.len();
        let mut world: Vec<Point2> = Vec::new();
        let mut i: usize = 0;
        while i < n
            invariant
                n == verts@.len(),
                verts@ == self.shape_seq(),
                self.wf(),
                rotation.wf(),
                in_bounds(position),
                i <= n,
                world@.len() == i,
                forall|k: int|
                    0 <= k < i ==> #[trigger] world@[k] == world_of(verts@[k], position, rotation),
            decreases n - i,
        {
            let v = verts[i];
            let w = to_world(v, position, rotation);
            world.push(w);
            i = i + 1;
        }
        Ok(world)
    }
}

} // verus!
