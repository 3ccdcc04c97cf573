//! The rigid-body transform: a local-space vertex carried into world space by
//! the body's simulated position and rotation. The same transform builds
//! collision shapes and places vertices for rendering, so render-time
//! positions match the simulated body exactly.
use vstd::prelude::*;

use crate::geometry::COORD_BOUND;
use crate::geometry::Point2;
use crate::geometry::UNIT_SCALE;
use crate::geometry::div_trunc;
use crate::geometry::div_trunc_i64;
use crate::geometry::in_bounds;
use crate::geometry::lemma_div_trunc_bound;
use crate::geometry::lemma_div_trunc_exact;

verus! {

/// A world rotation as a fixed-point unit vector: the cosine and sine of the
/// angle, each in `UNIT_SCALE` subunits. The surrounding application converts
/// the engine's angle once per frame; the geometry core never holds an angle
/// itself, so applying the rotation is exact integer arithmetic.
#[derive(Clone, Copy, PartialEq, Eq, Structural, Debug)]
pub struct Rotation {
    pub cos_u: i64,
    pub sin_u: i64,
}

impl Rotation {
    /// Components no larger than one unit, as a cosine and sine are.
    pub open spec fn wf(self) -> bool {
        -UNIT_SCALE <= self.cos_u <= UNIT_SCALE && -UNIT_SCALE <= self.sin_u <= UNIT_SCALE
    }

    /// The rotation by angle zero.
    pub closed spec fn spec_identity() -> Rotation {
        Rotation { cos_u: UNIT_SCALE, sin_u: 0 }
    }

    #[verifier::when_used_as_spec(spec_identity)]
    pub fn identity() -> (r: Rotation)
        ensures
            r == (Rotation { cos_u: UNIT_SCALE, sin_u: 0 }),
    {
        Rotation { cos_u: UNIT_SCALE, sin_u: 0 }
    }
}

/// Where `to_world` puts a vertex: the rotation matrix times the local
/// vertex, scaled back down toward zero, plus the body position.
pub open spec fn world_of(v: Point2, position: Point2, rot: Rotation) -> Point2 {
    Point2 {
        x: (position.x + div_trunc(rot.cos_u * v.x - rot.sin_u * v.y, UNIT_SCALE as int)) as i64,
        y: (position.y + div_trunc(rot.sin_u * v.x + rot.cos_u * v.y, UNIT_SCALE as int)) as i64,
    }
}

/// Carries a local-space vertex into world space: the standard rotation
/// matrix `[[cos, -sin], [sin, cos]]` applied to the vertex, then the body
/// position added. Exact up to the one truncating division that removes the
/// rotation's fixed-point scale.
pub fn to_world(v: Point2, position: Point2, rot: Rotation) -> (r: Point2)
    requires
        in_bounds(v),
        in_bounds(position),
        rot.wf(),
    ensures
        r == world_of(v, position, rot),
{
    proof {
        lemma_rotation_products_fit(rot.cos_u as int, rot.sin_u as int, v.x as int, v.y as int);
        lemma_div_trunc_bound(
            rot.cos_u * v.x - rot.sin_u * v.y,
            UNIT_SCALE as int,
            2 * COORD_BOUND as int,
        );
        lemma_div_trunc_bound(
            rot.sin_u * v.x + rot.cos_u * v.y,
            UNIT_SCALE as int,
            2 * COORD_BOUND as int,
        );
    }
    let rx = div_trunc_i64(rot.cos_u * v.x - rot.sin_u * v.y, UNIT_SCALE);
    let ry = div_trunc_i64(rot.sin_u * v.x + rot.cos_u * v.y, UNIT_SCALE);
    Point2 { x: position.x + rx, y: position.y + ry }
}

/// The products of rotation subunits and bounded coordinates stay well inside
/// `i64`, and their sums inside `UNIT_SCALE` times twice the coordinate bound.
proof fn lemma_rotation_products_fit(c: int, s: int, x: int, y: int)
    by (nonlinear_arith)
    requires
        -UNIT_SCALE <= c <= UNIT_SCALE,
        -UNIT_SCALE <= s <= UNIT_SCALE,
        -COORD_BOUND <= x <= COORD_BOUND,
        -COORD_BOUND <= y <= COORD_BOUND,
    ensures
        -(UNIT_SCALE * COORD_BOUND) <= c * x <= UNIT_SCALE * COORD_BOUND,
        -(UNIT_SCALE * COORD_BOUND) <= s * y <= UNIT_SCALE * COORD_BOUND,
        -(UNIT_SCALE * COORD_BOUND) <= s * x <= UNIT_SCALE * COORD_BOUND,
        -(UNIT_SCALE * COORD_BOUND) <= c * y <= UNIT_SCALE * COORD_BOUND,
        -(UNIT_SCALE * (2 * COORD_BOUND)) <= c * x - s * y <= UNIT_SCALE * (2 * COORD_BOUND),
        -(UNIT_SCALE * (2 * COORD_BOUND)) <= s * x + c * y <= UNIT_SCALE * (2 * COORD_BOUND),
{
}

/// At position `(0, 0)` and rotation zero, `to_world` is the identity on the
/// local vertex, exactly.
pub proof fn lemma_to_world_identity(v: Point2)
    ensures
        world_of(v, Point2 { x: 0, y: 0 }, Rotation::identity()) == v,
{
    assert(UNIT_SCALE * v.x - 0 * v.y == UNIT_SCALE * v.x) by (nonlinear_arith);
    assert(0 * v.x + UNIT_SCALE * v.y == UNIT_SCALE * v.y) by (nonlinear_arith);
    lemma_div_trunc_exact(v.x as int, UNIT_SCALE as int);
    lemma_div_trunc_exact(v.y as int, UNIT_SCALE as int);
}

/// Rotation preserves the squared distance from the body origin, up to the
/// square of the fixed-point scale: for any rotation components with
/// `c * c + s * s == k`, the rotated vertex's squared norm is `k` times the
/// local vertex's. For an exact unit rotation (`k == UNIT_SCALE * UNIT_SCALE`)
/// the distance from the body position is therefore preserved exactly, before
/// the final truncating division rounds each coordinate toward zero.
pub proof fn lemma_rotation_preserves_norm(c: int, s: int, x: int, y: int)
    ensures
        (c * x - s * y) * (c * x - s * y) + (s * x + c * y) * (s * x + c * y) == (c * c + s * s) * (
        x * x + y * y),
{
    lemma_square_sub(c * x, s * y);
    lemma_square_add(s * x, c * y);
    lemma_mul_four(c, x, s, y);
    lemma_mul_four(s, x, c, y);
    lemma_mul_four(c, x, c, x);
    lemma_mul_four(s, y, s, y);
    lemma_mul_four(s, x, s, x);
    lemma_mul_four(c, y, c, y);
    vstd::arithmetic::mul::lemma_mul_is_commutative(c, s);
    lemma_distrib4(c * c, s * s, x * x, y * y);
}

/// The rotated vertex before the fixed-point scale is divided away: the
/// rotation matrix times the local vertex, in `UNIT_SCALE` subunits.
pub open spec fn rotated_x(v: Point2, rot: Rotation) -> int {
    rot.cos_u * v.x - rot.sin_u * v.y
}

/// The rotated vertex's second coordinate, in `UNIT_SCALE` subunits.
pub open spec fn rotated_y(v: Point2, rot: Rotation) -> int {
    rot.sin_u * v.x + rot.cos_u * v.y
}

/// A rotation whose components form an exact unit vector preserves a vertex's
/// squared distance from the body origin: the rotated vertex's squared norm
/// is the local vertex's, times the square of the fixed-point scale its
/// coordinates still carry. Only the final truncating division of `to_world`,
/// which rounds each coordinate toward zero by less than one subunit, falls
/// outside this equality.
pub proof fn lemma_to_world_preserves_norm(v: Point2, rot: Rotation)
    requires
        rot.cos_u * rot.cos_u + rot.sin_u * rot.sin_u == UNIT_SCALE * UNIT_SCALE,
    ensures
        rotated_x(v, rot) * rotated_x(v, rot) + rotated_y(v, rot) * rotated_y(v, rot) == (UNIT_SCALE
            * UNIT_SCALE) * (v.x * v.x + v.y * v.y),
{
    lemma_rotation_preserves_norm(rot.cos_u as int, rot.sin_u as int, v.x as int, v.y as int);
}

/// The square of a difference, expanded.
proof fn lemma_square_sub(a: int, b: int)
    by (nonlinear_arith)
    ensures
        (a - b) * (a - b) == a * a - 2 * (a * b) + b * b,
{
}

/// The square of a sum, expanded.
proof fn lemma_square_add(a: int, b: int)
    by (nonlinear_arith)
    ensures
        (a + b) * (a + b) == a * a + 2 * (a * b) + b * b,
{
}

/// Factors of a product of products can be regrouped.
proof fn lemma_mul_four(p: int, q: int, r: int, t: int)
    by (nonlinear_arith)
    ensures
        (p * q) * (r * t) == (p * r) * (q * t),
{
}

/// A product of two sums, expanded.
proof fn lemma_distrib4(p: int, q: int, r: int, t: int)
    by (nonlinear_arith)
    ensures
        (p + q) * (r + t) == p * r + p * t + q * r + q * t,
{
}

} // verus!
