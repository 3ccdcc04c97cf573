//! Fan triangulation of a polygon: index triples into the vertex list, one
//! triangle per step around the fan apex at vertex zero, and the proof that
//! the signed areas of the triangles sum exactly to the polygon's signed area.
use vstd::prelude::*;

use crate::geometry::GeometryError;
use crate::geometry::Point2;
use crate::geometry::cross3;
use crate::geometry::det2;

verus! {

/// One triangle of a triangulation: three indices into the polygon's vertex
/// sequence.
#[derive(Clone, Copy, PartialEq, Eq, Structural, Debug)]
pub struct TriangleIndices {
    pub a: usize,
    pub b: usize,
    pub c: usize,
}

/// The triple the fan decomposition emits at step `i`: apex, then the two
/// vertices `i + 1` and `i + 2` around the loop.
pub open spec fn fan_triple(i: int) -> TriangleIndices {
    TriangleIndices { a: 0, b: (i + 1) as usize, c: (i + 2) as usize }
}

/// Indices within an `n`-vertex polygon and pairwise distinct.
pub open spec fn valid_triangle(t: TriangleIndices, n: int) -> bool {
    t.a < n && t.b < n && t.c < n && t.a != t.b && t.b != t.c && t.a != t.c
}

/// Decomposes a polygon into a fan of triangles from vertex zero: for `n`
/// vertices the triples `(0, i + 1, i + 2)` for `i` in `0 .. n - 2`, so
/// exactly `n - 2` triangles, each within bounds with distinct indices.
///
/// The fan partitions the interior of a polygon that is convex about vertex
/// zero; for other simple polygons the triples still reference the polygon's
/// own winding and their signed areas still sum to the polygon's, which is
/// what `lemma_triangulation_area` states.
///
/// Fewer than three vertices are not a polygon: `NotSimplePolygon`.
pub fn triangulate_polygon(points: &Vec<Point2>) -> (r: Result<
    Vec<TriangleIndices>,
    GeometryError,
>)
    ensures
        r is Err <==> points@.len() < 3,
        r is Err ==> r->Err_0 == GeometryError::NotSimplePolygon,
        r matches Ok(ts) ==> {
            &&& ts@.len() == points@.len() - 2
            &&& forall|i: int| 0 <= i < ts@.len() ==> (#[trigger] ts@[i]) == fan_triple(i)
            &&& forall|i: int|
                0 <= i < ts@.len() ==> valid_triangle(#[trigger] ts@[i], points@.len() as int)
        },
{
    let n = points.len();
    if n < 3 {
        return Err(GeometryError::NotSimplePolygon);
    }
    let mut triangles: Vec<TriangleIndices> = Vec::new();
    let mut i: usize = 0;
    while i < n - 2
        invariant
            3 <= n == points@.len(),
            i <= n - 2,
            triangles@.len() == i,
            forall|k: int| 0 <= k < i ==> triangles@[k] == fan_triple(k),
        decreases n - 2 - i,
    {
        triangles.push(TriangleIndices { a: 0, b: i + 1, c: i + 2 });
        i = i + 1;
    }
    proof {
        assert forall|k: int| 0 <= k < triangles@.len() implies valid_triangle(
            #[trigger] triangles@[k],
            points@.len() as int,
        ) by {
            assert(triangles@[k] == fan_triple(k));
        }
    }
    Ok(triangles)
}

/// Looks up the three vertices of each fan triangle, the shape of each convex
/// collision piece a compound collider is built from.
pub fn triangle_vertices(points: &Vec<Point2>) -> (r: Result<
    Vec<(Point2, Point2, Point2)>,
    GeometryError,
>)
    ensures
        r is Err <==> points@.len() < 3,
        r is Err ==> r->Err_0 == GeometryError::NotSimplePolygon,
        r matches Ok(v) ==> {
            &&& v@.len() == points@.len() - 2
            &&& forall|i: int|
                0 <= i < v@.len() ==> (#[trigger] v@[i]) == (points@[0], points@[i + 1], points@[i
                    + 2])
        },
{
    let triangles = match triangulate_polygon(points) {
        Ok(ts) => ts,
        Err(e) => {
            return Err(e);
        },
    };
    let n = points.len();
    let mut shapes: Vec<(Point2, Point2, Point2)> = Vec::new();
    let mut i: usize = 0;
    while i < triangles.len()
        invariant
            3 <= n == points@.len(),
            triangles@.len() == points@.len() - 2,
            forall|k: int| 0 <= k < triangles@.len() ==> triangles@[k] == fan_triple(k),
            i <= triangles@.len(),
            shapes@.len() == i,
            forall|k: int|
                0 <= k < i ==> #[trigger] shapes@[k] == (points@[0], points@[k + 1], points@[k
                    + 2]),
        decreases triangles@.len() - i,
    {
        let t = triangles[i];
        proof {
            assert(triangles@[i as int] == fan_triple(i as int));
            assert(t.a == 0 && t.b == i + 1 && t.c == i + 2);
        }
        let va = points[t.a];
        let vb = points[t.b];
        let vc = points[t.c];
        shapes.push((va, vb, vc));
        i = i + 1;
    }
    Ok(shapes)
}

/// Twice the signed area swept by the open vertex chain: the sum of the
/// determinants of consecutive vertices.
pub open spec fn chain_sum(s: Seq<Point2>) -> int
    decreases s.len(),
{
    if s.len() < 2 {
        0
    } else {
        chain_sum(s.drop_last()) + det2(s[s.len() - 2], s[s.len() - 1])
    }
}

/// Twice the signed area of the closed polygon (the shoelace sum): the chain
/// sum plus the closing edge from the last vertex back to the first. Positive
/// for a counter-clockwise winding.
pub open spec fn twice_signed_area(s: Seq<Point2>) -> int {
    if s.len() < 2 {
        0
    } else {
        chain_sum(s) + det2(s[s.len() - 1], s[0])
    }
}

/// Twice the signed areas of the fan triangles `(0, i + 1, i + 2)`, summed.
pub open spec fn fan_sum(s: Seq<Point2>) -> int
    decreases s.len(),
{
    if s.len() < 3 {
        0
    } else {
        fan_sum(s.drop_last()) + cross3(s[0], s[s.len() - 2], s[s.len() - 1])
    }
}

/// Twice the signed area of one triangle of a triangulation.
pub open spec fn tri_twice_area(s: Seq<Point2>, t: TriangleIndices) -> int {
    cross3(s[t.a as int], s[t.b as int], s[t.c as int])
}

/// Twice the signed areas of a list of triangles, summed.
pub open spec fn tri_sum(s: Seq<Point2>, ts: Seq<TriangleIndices>) -> int
    decreases ts.len(),
{
    if ts.len() == 0 {
        0
    } else {
        tri_sum(s, ts.drop_last()) + tri_twice_area(s, ts.last())
    }
}

/// The determinant is antisymmetric.
proof fn lemma_det2_antisym(a: Point2, b: Point2)
    by (nonlinear_arith)
    ensures
        det2(a, b) == -det2(b, a),
{
}

/// A triangle's twice-area, written over the determinants of its sides.
proof fn lemma_cross3_dets(o: Point2, a: Point2, b: Point2)
    by (nonlinear_arith)
    ensures
        cross3(o, a, b) == det2(a, b) + det2(b, o) - det2(a, o),
{
}

/// The fan's signed areas telescope into the shoelace sum.
proof fn lemma_fan_area(s: Seq<Point2>)
    requires
        s.len() >= 3,
    ensures
        fan_sum(s) == twice_signed_area(s),
    decreases s.len(),
{
    let n = s.len() as int;
    let t = s.drop_last();
    if s.len() == 3 {
        assert(fan_sum(t) == 0);
        assert(chain_sum(t.drop_last()) == 0);
        assert(chain_sum(t) == det2(s[0], s[1]));
        lemma_cross3_dets(s[0], s[1], s[2]);
        lemma_det2_antisym(s[1], s[0]);
        lemma_det2_antisym(s[2], s[0]);
    } else {
        lemma_fan_area(t);
        assert(chain_sum(s) == chain_sum(t) + det2(s[n - 2], s[n - 1]));
        assert(twice_signed_area(t) == chain_sum(t) + det2(s[n - 2], s[0]));
        lemma_cross3_dets(s[0], s[n - 2], s[n - 1]);
        lemma_det2_antisym(s[n - 1], s[0]);
        lemma_det2_antisym(s[n - 2], s[0]);
    }
}

/// The sum over a fan prefix equals the fan sum of the vertex prefix the
/// triangles reach.
proof fn lemma_tri_sum_prefix(s: Seq<Point2>, ts: Seq<TriangleIndices>)
    requires
        ts.len() + 2 <= s.len(),
        ts.len() + 2 <= usize::MAX,
        forall|i: int| 0 <= i < ts.len() ==> ts[i] == fan_triple(i),
    ensures
        tri_sum(s, ts) == fan_sum(s.take(ts.len() as int + 2)),
    decreases ts.len(),
{
    if ts.len() == 0 {
        assert(fan_sum(s.take(2)) == 0);
    } else {
        let m = ts.len() as int;
        assert(ts.last() == fan_triple(m - 1));
        assert(ts.last().a as int == 0 && ts.last().b as int == m && ts.last().c as int == m + 1);
        lemma_tri_sum_prefix(s, ts.drop_last());
        let p = s.take(m + 2);
        assert(p.drop_last() =~= s.take(m + 1));
        assert(fan_sum(p) == fan_sum(s.take(m + 1)) + cross3(p[0], p[m], p[m + 1]));
        assert(ts.last() == fan_triple(m - 1));
        assert(tri_twice_area(s, ts.last()) == cross3(s[0], s[m], s[m + 1]));
    }
}

/// The triangles of `triangulate_polygon` partition the polygon's signed
/// area: the twice-areas of the returned triangles sum exactly to the
/// polygon's shoelace twice-area. The statement's hypotheses are exactly what
/// `triangulate_polygon` ensures of its result.
pub proof fn lemma_triangulation_area(s: Seq<Point2>, ts: Seq<TriangleIndices>)
    requires
        3 <= s.len() <= usize::MAX,
        ts.len() == s.len() - 2,
        forall|i: int| 0 <= i < ts.len() ==> ts[i] == fan_triple(i),
    ensures
        tri_sum(s, ts) == twice_signed_area(s),
{
    lemma_tri_sum_prefix(s, ts);
    assert(s.take(ts.len() as int + 2) =~= s);
    lemma_fan_area(s);
}

} // verus!
