//! Planar points in fixed-point integer coordinates, the cross-product
//! predicates built on them, and the error type of the geometry core.
use vstd::prelude::*;

verus! {

/// Largest coordinate magnitude the geometry core accepts.
///
/// With every coordinate in `[-COORD_BOUND, COORD_BOUND]`, a difference of two
/// coordinates fits in 31 decimal-ish digits short of `i64`: products of two
/// differences stay below `4 * 10^18` and a cross product below `8 * 10^18`,
/// inside the `i64` range, so every predicate here is computed exactly.
pub const COORD_BOUND: i64 = 1_000_000_000;

/// Subunits of a rotation's unit vector: a rotation carries cosine and sine
/// times `UNIT_SCALE`, and applying it divides the products back down.
pub const UNIT_SCALE: i64 = 1_000_000;

/// A point of the plane in fixed-point subunits.
#[derive(Clone, Copy, PartialEq, Eq, Structural, Debug)]
pub struct Point2 {
    pub x: i64,
    pub y: i64,
}

/// The failures of the geometry core.
#[derive(Clone, Copy, PartialEq, Eq, Structural, Debug)]
pub enum GeometryError {
    /// A vertex-count range whose lower bound is below three, or an empty one.
    InvalidVertexCount,
    /// A triangulation was asked of fewer than three vertices.
    NotSimplePolygon,
    /// A body's physics-engine handle no longer resolves to a rigid body.
    StaleHandle,
}

impl Point2 {
    pub closed spec fn spec_new(x: i64, y: i64) -> Point2 {
        Point2 { x, y }
    }

    #[verifier::when_used_as_spec(spec_new)]
    pub fn new(x: i64, y: i64) -> (r: Point2)
        ensures
            r == (Point2 { x, y }),
    {
        Point2 { x, y }
    }
}

/// Both coordinates within `COORD_BOUND`.
pub open spec fn in_bounds(p: Point2) -> bool {
    -COORD_BOUND <= p.x <= COORD_BOUND && -COORD_BOUND <= p.y <= COORD_BOUND
}

/// Every point of the sequence within `COORD_BOUND`.
pub open spec fn all_in_bounds(s: Seq<Point2>) -> bool {
    forall|i: int| 0 <= i < s.len() ==> in_bounds(#[trigger] s[i])
}

/// Determinant of two vectors: positive when `b` lies counter-clockwise of `a`.
pub open spec fn det2(a: Point2, b: Point2) -> int {
    a.x * b.y - a.y * b.x
}

/// Cross product of `(a - o)` and `(b - o)`: twice the signed area of the
/// triangle `o a b`, positive when `o a b` winds counter-clockwise.
pub open spec fn cross3(o: Point2, a: Point2, b: Point2) -> int {
    (a.x - o.x) * (b.y - o.y) - (a.y - o.y) * (b.x - o.x)
}

/// Exact runtime check whether `p0 p1 p2` turns clockwise at `p1`.
fn is_concave(p0: Point2, p1: Point2, p2: Point2) -> (r: bool)
    requires
        in_bounds(p0),
        in_bounds(p1),
        in_bounds(p2),
    ensures
        r <==> cross3(p1, p0, p2) < 0,
{
    let v1x = p0.x - p1.x;
    let v1y = p0.y - p1.y;
    let v2x = p2.x - p1.x;
    let v2y = p2.y - p1.y;
    proof {
        lemma_diff_products_fit(v1x as int, v1y as int, v2x as int, v2y as int);
    }
    v1x * v2y - v1y * v2x < 0
}

/// Whether the corner at `corner`, between `prev` and `next`, is convex:
/// the cross product of the two edge vectors is non-negative, so collinear
/// triples count as convex.
pub fn is_convex(prev: Point2, corner: Point2, next: Point2) -> (r: bool)
    requires
        in_bounds(prev),
        in_bounds(corner),
        in_bounds(next),
    ensures
        r <==> cross3(corner, prev, next) >= 0,
{
    !is_concave(prev, corner, next)
}

/// Products of coordinate differences fit comfortably in `i64`.
pub(crate) proof fn lemma_diff_products_fit(v1x: int, v1y: int, v2x: int, v2y: int)
    by (nonlinear_arith)
    requires
        -2 * COORD_BOUND <= v1x <= 2 * COORD_BOUND,
        -2 * COORD_BOUND <= v1y <= 2 * COORD_BOUND,
        -2 * COORD_BOUND <= v2x <= 2 * COORD_BOUND,
        -2 * COORD_BOUND <= v2y <= 2 * COORD_BOUND,
    ensures
        -4_000_000_000_000_000_000 <= v1x * v2y <= 4_000_000_000_000_000_000,
        -4_000_000_000_000_000_000 <= v1y * v2x <= 4_000_000_000_000_000_000,
{
}

/// The convexity of a corner does not change when all three points move by
/// the same offset: the cross product is built from coordinate differences.
pub proof fn lemma_is_convex_translation_invariant(
    prev: Point2,
    corner: Point2,
    next: Point2,
    dx: int,
    dy: int,
)
    by (nonlinear_arith)
    ensures
        cross3_raw(
            corner.x + dx, corner.y + dy,
            prev.x + dx, prev.y + dy,
            next.x + dx, next.y + dy,
        ) == cross3(corner, prev, next),
{
}

/// The convexity of a corner does not change when all three points are scaled
/// by the same positive factor about the origin: the cross product scales by
/// the square of the factor, keeping its sign.
pub proof fn lemma_is_convex_scale_invariant(
    prev: Point2,
    corner: Point2,
    next: Point2,
    k: int,
)
    requires
        k > 0,
    ensures
        cross3_raw(
            k * corner.x, k * corner.y,
            k * prev.x, k * prev.y,
            k * next.x, k * next.y,
        ) == k * k * cross3(corner, prev, next),
        cross3_raw(
            k * corner.x, k * corner.y,
            k * prev.x, k * prev.y,
            k * next.x, k * next.y,
        ) >= 0 <==> cross3(corner, prev, next) >= 0,
{
    let ox = corner.x as int;
    let oy = corner.y as int;
    let ax = prev.x as int;
    let ay = prev.y as int;
    let bx = next.x as int;
    let by = next.y as int;
    let u1 = ax - ox;
    let v1 = by - oy;
    let u2 = ay - oy;
    let v2 = bx - ox;
    let c = cross3(corner, prev, next);
    lemma_mul_sub(k, ax, ox);
    lemma_mul_sub(k, by, oy);
    lemma_mul_sub(k, ay, oy);
    lemma_mul_sub(k, bx, ox);
    lemma_scale_product(k, u1, v1);
    lemma_scale_product(k, u2, v2);
    lemma_mul_sub(k * k, u1 * v1, u2 * v2);
    lemma_scaled_sign(k, c);
}

/// Multiplication distributes over subtraction.
proof fn lemma_mul_sub(k: int, a: int, b: int)
    by (nonlinear_arith)
    ensures
        k * a - k * b == k * (a - b),
{
}

/// Scaling both factors by `k` scales the product by `k * k`.
proof fn lemma_scale_product(k: int, u: int, v: int)
    by (nonlinear_arith)
    ensures
        (k * u) * (k * v) == k * k * (u * v),
{
}

/// A positive square factor keeps the sign.
proof fn lemma_scaled_sign(k: int, c: int)
    by (nonlinear_arith)
    requires
        k > 0,
    ensures
        k * k * c >= 0 <==> c >= 0,
{
}

/// `cross3` over raw coordinates, for points that scaling or translation may
/// carry outside the `i64` range.
pub open spec fn cross3_raw(ox: int, oy: int, ax: int, ay: int, bx: int, by: int) -> int {
    (ax - ox) * (by - oy) - (ay - oy) * (bx - ox)
}

/// Division rounding toward zero, the rounding of the runtime `/`, expressed
/// with the Euclidean `/` of specifications.
pub open spec fn div_trunc(n: int, d: int) -> int
    recommends
        d > 0,
{
    if n >= 0 {
        n / d
    } else {
        -((-n) / d)
    }
}

/// `n / d` rounded toward zero.
pub fn div_trunc_i64(n: i64, d: i64) -> (r: i64)
    requires
        d > 0,
        n > i64::MIN,
    ensures
        r as int == div_trunc(n as int, d as int),
{
    proof {
        lemma_div_trunc_fits(n as int, d as int);
    }
    let q = n.checked_div(d);
    q.unwrap()
}

/// The quotient rounded toward zero is no larger in magnitude than the
/// dividend, so it fits wherever the dividend fits.
proof fn lemma_div_trunc_fits(n: int, d: int)
    requires
        d > 0,
        i64::MIN < n <= i64::MAX,
    ensures
        i64::MIN < div_trunc(n, d) <= i64::MAX,
        n > 0 ==> div_trunc(n, d) == n / d,
        n < 0 ==> div_trunc(n, d) == ((n * -1) / d) * -1,
        n == 0 ==> div_trunc(n, d) == 0,
{
    if n >= 0 {
        vstd::arithmetic::div_mod::lemma_div_pos_is_pos(n, d);
        vstd::arithmetic::div_mod::lemma_div_nonincreasing(n, d);
    } else {
        vstd::arithmetic::div_mod::lemma_div_pos_is_pos(-n, d);
        vstd::arithmetic::div_mod::lemma_div_nonincreasing(-n, d);
    }
}

/// A quotient of a bounded dividend is bounded: `|n| <= d * b` gives
/// `|div_trunc(n, d)| <= b`.
pub proof fn lemma_div_trunc_bound(n: int, d: int, b: int)
    requires
        d > 0,
        0 <= b,
        -(d * b) <= n <= d * b,
    ensures
        -b <= div_trunc(n, d) <= b,
{
    if n >= 0 {
        vstd::arithmetic::div_mod::lemma_div_pos_is_pos(n, d);
        vstd::arithmetic::div_mod::lemma_div_is_ordered(n, d * b, d);
        vstd::arithmetic::div_mod::lemma_div_multiples_vanish(b, d);
    } else {
        vstd::arithmetic::div_mod::lemma_div_pos_is_pos(-n, d);
        vstd::arithmetic::div_mod::lemma_div_is_ordered(-n, d * b, d);
        vstd::arithmetic::div_mod::lemma_div_multiples_vanish(b, d);
    }
}

/// Dividing an exact multiple is exact: `div_trunc(d * k, d) == k`.
pub proof fn lemma_div_trunc_exact(k: int, d: int)
    requires
        d > 0,
    ensures
        div_trunc(d * k, d) == k,
{
    vstd::arithmetic::div_mod::lemma_div_multiples_vanish(k, d);
    if d * k < 0 {
        assert(-(d * k) == d * (-k)) by (nonlinear_arith);
        vstd::arithmetic::div_mod::lemma_div_multiples_vanish(-k, d);
    } else {
        assert(k >= 0 ==> d * k >= 0) by (nonlinear_arith)
            requires
                d > 0,
        ;
        assert(d * k >= 0 ==> k >= 0) by (nonlinear_arith)
            requires
                d > 0,
        ;
    }
}

} // verus!
