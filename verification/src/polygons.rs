//! Polygons and their generation: a random simple polygon from a seeded
//! sample of points, sorted into a loop by angle around their centroid, and a
//! regular polygon from caller-supplied unit directions.
use vstd::prelude::*;

use crate::angular::sort_around;
use crate::angular::sorted_around;
use crate::angular::sum_x;
use crate::angular::sum_y;
use crate::geometry::COORD_BOUND;
use crate::geometry::GeometryError;
use crate::geometry::Point2;
use crate::geometry::UNIT_SCALE;
use crate::geometry::all_in_bounds;
use crate::geometry::div_trunc;
use crate::geometry::div_trunc_i64;
use crate::geometry::in_bounds;
use crate::geometry::lemma_div_trunc_bound;
use crate::rng::rng_from_seed;
use crate::rng::sample_range;

verus! {

/// An ordered vertex loop: at least three vertices, each within the
/// coordinate bound, the last vertex implicitly connected to the first.
/// Immutable once built.
#[derive(Debug)]
pub struct Polygon {
    vertices: Vec<Point2>,
}

impl View for Polygon {
    type V = Seq<Point2>;

    closed spec fn view(&self) -> Seq<Point2> {
        self.vertices@
    }
}

impl Polygon {
    /// The type's invariant: a loop of at least three bounded vertices.
    pub open spec fn wf(&self) -> bool {
        self@.len() >= 3 && all_in_bounds(self@)
    }

    /// Builds a polygon from an ordered vertex loop. Fewer than three
    /// vertices are no polygon: `InvalidVertexCount`.
    pub fn new(vertices: Vec<Point2>) -> (r: Result<Polygon, GeometryError>)
        requires
            all_in_bounds(vertices@),
        ensures
            r is Err <==> vertices@.len() < 3,
            r is Err ==> r->Err_0 == GeometryError::InvalidVertexCount,
            r matches Ok(p) ==> p@ == vertices@ && p.wf(),
    {
        if vertices.len() < 3 {
            Err(GeometryError::InvalidVertexCount)
        } else {
            Ok(Polygon { vertices })
        }
    }

    /// The vertex loop.
    pub fn vertices(&self) -> (r: &Vec<Point2>)
        ensures
            r@ == self@,
    {
        &self.vertices
    }

    /// The number of vertices.
    pub fn len(&self) -> (r: usize)
        ensures
            r == self@.len(),
    {
        self.vertices.len()
    }
}

/// Where the vertex loop's centroid lies: the coordinate sums divided by the
/// vertex count, each quotient rounded toward zero.
pub open spec fn centroid_of(s: Seq<Point2>) -> Point2 {
    Point2 {
        x: div_trunc(sum_x(s), s.len() as int) as i64,
        y: div_trunc(sum_y(s), s.len() as int) as i64,
    }
}

/// The centroid of a non-empty bounded point set, computed exactly.
pub fn centroid(pts: &Vec<Point2>) -> (r: Point2)
    requires
        1 <= pts@.len() <= u32::MAX,
        all_in_bounds(pts@),
    ensures
        r == centroid_of(pts@),
        in_bounds(r),
{
    let n = pts.len();
    let mut sx: i64 = 0;
    let mut sy: i64 = 0;
    let mut i: usize = 0;
    while i < n
        invariant
            n == pts@.len(),
            1 <= n <= u32::MAX,
            all_in_bounds(pts@),
            i <= n,
            sx == sum_x(pts@.take(i as int)),
            sy == sum_y(pts@.take(i as int)),
            -(i as int) * COORD_BOUND <= sx <= (i as int) * COORD_BOUND,
            -(i as int) * COORD_BOUND <= sy <= (i as int) * COORD_BOUND,
        decreases n - i,
    {
        proof {
            assert(pts@.take(i as int + 1).drop_last() =~= pts@.take(i as int));
            assert(pts@.take(i as int + 1).last() == pts@[i as int]);
            assert(in_bounds(pts@[i as int]));
        }
        sx = sx + pts[i].x;
        sy = sy + pts[i].y;
        i = i + 1;
    }
    proof {
        assert(pts@.take(n as int) =~= pts@);
        lemma_div_trunc_bound(sx as int, n as int, COORD_BOUND as int);
        lemma_div_trunc_bound(sy as int, n as int, COORD_BOUND as int);
    }
    let cn: i64 = n as i64;
    let cx = div_trunc_i64(sx, cn);
    let cy = div_trunc_i64(sy, cn);
    Point2 { x: cx, y: cy }
}

/// Generates a random simple polygon, reproducibly from the seed.
///
/// A vertex count is drawn from the half-open `num_sides_range`, that many
/// points are sampled uniformly within the bounding box centered on the
/// origin (`bounding_box` is the width/height pair of the spread), and the
/// points are sorted by the angle of `point - centroid`, ascending, which
/// closes the cloud into a non-self-intersecting loop.
///
/// A range whose lower bound is below three, or an empty one, is refused
/// with `InvalidVertexCount`.
pub fn random(seed: u64, num_sides_range: (u32, u32), bounding_box: (i64, i64)) -> (r: Result<
    Polygon,
    GeometryError,
>)
    requires
        0 < bounding_box.0 <= COORD_BOUND,
        0 < bounding_box.1 <= COORD_BOUND,
    ensures
        r is Err <==> !(3 <= num_sides_range.0 < num_sides_range.1),
        r is Err ==> r->Err_0 == GeometryError::InvalidVertexCount,
        r matches Ok(p) ==> {
            &&& num_sides_range.0 <= p@.len() < num_sides_range.1
            &&& forall|i: int|
                0 <= i < p@.len() ==> -(bounding_box.0 / 2) <= (#[trigger] p@[i]).x
                    <= bounding_box.0 / 2 && -(bounding_box.1 / 2) <= p@[i].y <= bounding_box.1 / 2
            &&& p.wf()
            &&& sorted_around(centroid_of(p@), p@)
        },
{
    if !(num_sides_range.0 >= 3 && num_sides_range.0 < num_sides_range.1) {
        return Err(GeometryError::InvalidVertexCount);
    }
    let mut rng = rng_from_seed(seed);
    let drawn = sample_range(&mut rng, num_sides_range.0 as i64, num_sides_range.1 as i64);
    let n = drawn as usize;
    let half_w = div_trunc_i64(bounding_box.0, 2);
    let half_h = div_trunc_i64(bounding_box.1, 2);
    let mut pts: Vec<Point2> = Vec::new();
    while pts.len() < n
        invariant
            3 <= n <= u32::MAX,
            0 <= half_w == bounding_box.0 / 2 <= COORD_BOUND,
            0 <= half_h == bounding_box.1 / 2 <= COORD_BOUND,
            pts@.len() <= n,
            forall|i: int|
                0 <= i < pts@.len() ==> -half_w <= (#[trigger] pts@[i]).x <= half_w && -half_h
                    <= pts@[i].y <= half_h,
        decreases n - pts@.len(),
    {
        let x = sample_range(&mut rng, -half_w, half_w + 1);
        let y = sample_range(&mut rng, -half_h, half_h + 1);
        pts.push(Point2 { x, y });
    }
    proof {
        assert(all_in_bounds(pts@));
    }
    let ghost sampled = pts@;
    let c = centroid(&pts);
    sort_around(c, &mut pts);
    proof {
        assert(centroid_of(pts@) == c);
        broadcast use vstd::seq_lib::group_to_multiset_ensures;

        assert forall|i: int| 0 <= i < pts@.len() implies -half_w <= (#[trigger] pts@[i]).x
            <= half_w && -half_h <= pts@[i].y <= half_h by {
            assert(pts@.contains(pts@[i]));
            assert(sampled.to_multiset().count(pts@[i]) > 0);
            assert(sampled.contains(pts@[i]));
            let k = choose|k: int| 0 <= k < sampled.len() && sampled[k] == pts@[i];
            assert(-half_w <= sampled[k].x <= half_w && -half_h <= sampled[k].y <= half_h);
        }
    }
    Ok(Polygon { vertices: pts })
}

/// Where a regular polygon's vertex lands: the unit direction scaled by the
/// circumradius, each coordinate's product divided back down toward zero.
pub open spec fn scaled_vertex(d: Point2, radius: i64) -> Point2 {
    Point2 {
        x: div_trunc(radius * d.x, UNIT_SCALE as int) as i64,
        y: div_trunc(radius * d.y, UNIT_SCALE as int) as i64,
    }
}

/// Builds a convex regular polygon deterministically: vertex `i` sits at
/// `radius` times `unit_dirs[i]`, the unit vector of the `i`-th angle
/// increment around the circle, supplied by the caller in `UNIT_SCALE`
/// subunits (the increments themselves are trigonometry, which the geometry
/// core does not compute). Fewer than three directions are refused with
/// `InvalidVertexCount`.
pub fn equilateral(unit_dirs: &Vec<Point2>, radius: i64) -> (r: Result<Polygon, GeometryError>)
    requires
        0 < radius <= COORD_BOUND,
        forall|i: int|
            0 <= i < unit_dirs@.len() ==> -UNIT_SCALE <= (#[trigger] unit_dirs@[i]).x <= UNIT_SCALE
                && -UNIT_SCALE <= unit_dirs@[i].y <= UNIT_SCALE,
    ensures
        r is Err <==> unit_dirs@.len() < 3,
        r is Err ==> r->Err_0 == GeometryError::InvalidVertexCount,
        r matches Ok(p) ==> {
            &&& p@.len() == unit_dirs@.len()
            &&& forall|i: int|
                0 <= i < p@.len() ==> #[trigger] p@[i] == scaled_vertex(unit_dirs@[i], radius)
            &&& p.wf()
        },
{
    let n = unit_dirs.len();
    if n < 3 {
        return Err(GeometryError::InvalidVertexCount);
    }
    let mut pts: Vec<Point2> = Vec::new();
    let mut i: usize = 0;
    while i < n
        invariant
            n == unit_dirs@.len(),
            0 < radius <= COORD_BOUND,
            forall|k: int|
                0 <= k < n ==> -UNIT_SCALE <= (#[trigger] unit_dirs@[k]).x <= UNIT_SCALE
                    && -UNIT_SCALE <= unit_dirs@[k].y <= UNIT_SCALE,
            i <= n,
            pts@.len() == i,
            forall|k: int| 0 <= k < i ==> #[trigger] pts@[k] == scaled_vertex(unit_dirs@[k], radius),
            all_in_bounds(pts@),
        decreases n - i,
    {
        let d = unit_dirs[i];
        proof {
            lemma_unit_product_fits(radius as int, d.x as int);
            lemma_unit_product_fits(radius as int, d.y as int);
            lemma_div_trunc_bound(radius * d.x, UNIT_SCALE as int, radius as int);
            lemma_div_trunc_bound(radius * d.y, UNIT_SCALE as int, radius as int);
        }
        let x = div_trunc_i64(radius * d.x, UNIT_SCALE);
        let y = div_trunc_i64(radius * d.y, UNIT_SCALE);
        pts.push(Point2 { x, y });
        i = i + 1;
    }
    Ok(Polygon { vertices: pts })
}

/// A circumradius times a unit-direction subunit stays within `UNIT_SCALE`
/// times the radius, well inside `i64`.
proof fn lemma_unit_product_fits(radius: int, d: int)
    by (nonlinear_arith)
    requires
        0 < radius <= COORD_BOUND,
        -UNIT_SCALE <= d <= UNIT_SCALE,
    ensures
        -(UNIT_SCALE * radius) <= radius * d <= UNIT_SCALE * radius,
{
}

} // verus!
