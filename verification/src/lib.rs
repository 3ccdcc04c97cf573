//! Geometry core for a simulation of falling, rotating polygonal bodies.
//!
//! The library generates random simple polygons (an angular sort of sampled
//! points around their centroid), classifies corners as convex or concave,
//! decomposes a polygon into a fan of triangles for a compound collider, and
//! transforms local-space vertices into world space from a body's simulated
//! position and rotation.
//!
//! Coordinates are fixed-point: a `Point2` holds integer subunits, and the
//! surrounding application chooses what one subunit means in world units.
//! Rotations are unit vectors in `UNIT_SCALE` subunits. All geometric
//! predicates and sums are therefore exact integer arithmetic.
pub mod angular;
pub mod geometry;
pub mod objects;
pub mod polygons;
mod rng;
pub mod transform;
pub mod triangulation;
