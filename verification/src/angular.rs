//! The angular order around a reference point, and a sort by it.
//!
//! Sorting sampled points by the angle of `point - centroid`, ascending as the
//! two-argument arctangent orders it, is what turns an unordered point cloud
//! into a non-self-intersecting loop. The order is decided here exactly, with
//! integer arithmetic: first by which part of the angle range the offset
//! vector falls in, then by the sign of a determinant within that part.
use vstd::prelude::*;

use crate::geometry::Point2;
use crate::geometry::all_in_bounds;
use crate::geometry::in_bounds;
use crate::geometry::lemma_diff_products_fit;

verus! {

/// Which stretch of the angle range, rising with the two-argument arctangent
/// of `(dy, dx)`, the offset vector `(dx, dy)` falls in: the open lower
/// half-plane holds the angles below zero, then angle zero itself (where the
/// zero vector also sorts), then the open upper half-plane, then the angle at
/// the top of the range.
pub open spec fn angle_group(dx: int, dy: int) -> int {
    if dy < 0 {
        0
    } else if dy == 0 && dx >= 0 {
        1
    } else if dy > 0 {
        2
    } else {
        3
    }
}

/// `a` comes no later than `b` in the angle order around `c`: its offset
/// vector falls in an earlier group, or in the same group with `b` not
/// clockwise of `a`. Offsets on a common ray from `c` tie, and a tie leaves
/// the order of the sort stable inputs gave.
pub open spec fn angle_le(c: Point2, a: Point2, b: Point2) -> bool {
    let ax = a.x - c.x;
    let ay = a.y - c.y;
    let bx = b.x - c.x;
    let by = b.y - c.y;
    ||| angle_group(ax, ay) < angle_group(bx, by)
    ||| (angle_group(ax, ay) == angle_group(bx, by) && ax * by - ay * bx >= 0)
}

/// Adjacent vertices of the sequence are in angle order around `c`.
pub open spec fn sorted_around(c: Point2, s: Seq<Point2>) -> bool {
    forall|i: int| 0 <= i < s.len() - 1 ==> #[trigger] angle_le(c, s[i], s[i + 1])
}

/// Exact runtime decision of the angle order.
pub fn angle_le_exec(c: Point2, a: Point2, b: Point2) -> (r: bool)
    requires
        in_bounds(c),
        in_bounds(a),
        in_bounds(b),
    ensures
        r == angle_le(c, a, b),
{
    let ax = a.x - c.x;
    let ay = a.y - c.y;
    let bx = b.x - c.x;
    let by = b.y - c.y;
    let ga: u8 = if ay < 0 {
        0
    } else if ay == 0 && ax >= 0 {
        1
    } else if ay > 0 {
        2
    } else {
        3
    };
    let gb: u8 = if by < 0 {
        0
    } else if by == 0 && bx >= 0 {
        1
    } else if by > 0 {
        2
    } else {
        3
    };
    if ga != gb {
        ga < gb
    } else {
        proof {
            lemma_diff_products_fit(ax as int, ay as int, bx as int, by as int);
        }
        ax * by - ay * bx >= 0
    }
}

/// Any two points compare: the angle order is total.
pub proof fn lemma_angle_le_total(c: Point2, a: Point2, b: Point2)
    ensures
        angle_le(c, a, b) || angle_le(c, b, a),
{
    let ax = a.x - c.x;
    let ay = a.y - c.y;
    let bx = b.x - c.x;
    let by = b.y - c.y;
    assert(ax * by - ay * bx == -(bx * ay - by * ax)) by (nonlinear_arith);
}

/// Within one group, the determinant order is transitive: the group spans
/// less than a half turn, where the determinant's sign orders angles.
proof fn lemma_det_transitive(ax: int, ay: int, bx: int, by: int, dx: int, dy: int, g: int)
    requires
        angle_group(ax, ay) == g,
        angle_group(bx, by) == g,
        angle_group(dx, dy) == g,
        ax * by - ay * bx >= 0,
        bx * dy - by * dx >= 0,
    ensures
        ax * dy - ay * dx >= 0,
{
    assert(by * (ax * dy - ay * dx) == dy * (ax * by - ay * bx) + ay * (bx * dy - by * dx))
        by (nonlinear_arith);
    if g == 0 {
        assert(dy * (ax * by - ay * bx) <= 0) by (nonlinear_arith)
            requires
                dy < 0,
                ax * by - ay * bx >= 0,
        ;
        assert(ay * (bx * dy - by * dx) <= 0) by (nonlinear_arith)
            requires
                ay < 0,
                bx * dy - by * dx >= 0,
        ;
        assert(by * (ax * dy - ay * dx) <= 0 && by < 0 ==> ax * dy - ay * dx >= 0)
            by (nonlinear_arith);
    } else if g == 2 {
        assert(dy * (ax * by - ay * bx) >= 0) by (nonlinear_arith)
            requires
                dy > 0,
                ax * by - ay * bx >= 0,
        ;
        assert(ay * (bx * dy - by * dx) >= 0) by (nonlinear_arith)
            requires
                ay > 0,
                bx * dy - by * dx >= 0,
        ;
        assert(by * (ax * dy - ay * dx) >= 0 && by > 0 ==> ax * dy - ay * dx >= 0)
            by (nonlinear_arith);
    } else {
        assert(ay == 0 && dy == 0);
        assert(ax * dy - ay * dx == 0) by (nonlinear_arith)
            requires
                ay == 0,
                dy == 0,
        ;
    }
}

/// The angle order is transitive.
pub proof fn lemma_angle_le_trans(c: Point2, a: Point2, b: Point2, d: Point2)
    requires
        angle_le(c, a, b),
        angle_le(c, b, d),
    ensures
        angle_le(c, a, d),
{
    let ax = a.x - c.x;
    let ay = a.y - c.y;
    let bx = b.x - c.x;
    let by = b.y - c.y;
    let dx = d.x - c.x;
    let dy = d.y - c.y;
    if angle_group(ax, ay) == angle_group(bx, by) && angle_group(bx, by) == angle_group(dx, dy) {
        lemma_det_transitive(ax, ay, bx, by, dx, dy, angle_group(ax, ay));
    }
}

/// In a loop whose adjacent vertices are in angle order, every vertex is in
/// angle order with every later one.
pub proof fn lemma_sorted_around_pairwise(c: Point2, s: Seq<Point2>)
    requires
        sorted_around(c, s),
    ensures
        forall|i: int, j: int| 0 <= i < j < s.len() ==> angle_le(c, s[i], s[j]),
{
    assert forall|i: int, j: int| 0 <= i < j < s.len() implies angle_le(c, s[i], s[j]) by {
        lemma_le_span(c, s, i, j);
    }
}

/// The angle order carries along a sorted stretch, by transitivity.
proof fn lemma_le_span(c: Point2, s: Seq<Point2>, i: int, j: int)
    requires
        sorted_around(c, s),
        0 <= i < j < s.len(),
    ensures
        angle_le(c, s[i], s[j]),
    decreases j - i,
{
    if i + 1 == j {
        assert(angle_le(c, s[i], s[i + 1]));
    } else {
        lemma_le_span(c, s, i, j - 1);
        assert(angle_le(c, s[j - 1], s[j - 1 + 1]));
        lemma_angle_le_trans(c, s[i], s[j - 1], s[j]);
    }
}

/// Sum of the x coordinates, the permutation-invariant core of the centroid.
pub open spec fn sum_x(s: Seq<Point2>) -> int
    decreases s.len(),
{
    if s.len() == 0 {
        0
    } else {
        sum_x(s.drop_last()) + s.last().x
    }
}

/// Sum of the y coordinates.
pub open spec fn sum_y(s: Seq<Point2>) -> int
    decreases s.len(),
{
    if s.len() == 0 {
        0
    } else {
        sum_y(s.drop_last()) + s.last().y
    }
}

/// Removing one point takes exactly its coordinates out of the sums.
proof fn lemma_sums_remove(s: Seq<Point2>, i: int)
    requires
        0 <= i < s.len(),
    ensures
        sum_x(s.remove(i)) == sum_x(s) - s[i].x,
        sum_y(s.remove(i)) == sum_y(s) - s[i].y,
    decreases s.len(),
{
    if i == s.len() - 1 {
        assert(s.remove(i) =~= s.drop_last());
    } else {
        assert(s.remove(i).drop_last() =~= s.drop_last().remove(i));
        lemma_sums_remove(s.drop_last(), i);
        assert(s.remove(i).last() == s.last());
    }
}

/// Inserting one point adds exactly its coordinates to the sums.
proof fn lemma_sums_insert(s: Seq<Point2>, i: int, p: Point2)
    requires
        0 <= i <= s.len(),
    ensures
        sum_x(s.insert(i, p)) == sum_x(s) + p.x,
        sum_y(s.insert(i, p)) == sum_y(s) + p.y,
    decreases s.len(),
{
    if i == s.len() {
        assert(s.insert(i, p).drop_last() =~= s);
        assert(s.insert(i, p).last() == p);
    } else {
        assert(s.insert(i, p).drop_last() =~= s.drop_last().insert(i, p));
        lemma_sums_insert(s.drop_last(), i, p);
        assert(s.insert(i, p).last() == s.last());
    }
}

/// Sorts the points into angle order around `c` by insertion, keeping the
/// collection of points (and with it the coordinate sums the centroid is
/// built from) exactly as it was.
pub fn sort_around(c: Point2, pts: &mut Vec<Point2>)
    requires
        in_bounds(c),
        all_in_bounds(old(pts)@),
    ensures
        final(pts)@.len() == old(pts)@.len(),
        final(pts)@.to_multiset() == old(pts)@.to_multiset(),
        sum_x(final(pts)@) == sum_x(old(pts)@),
        sum_y(final(pts)@) == sum_y(old(pts)@),
        all_in_bounds(final(pts)@),
        sorted_around(c, final(pts)@),
{
    let ghost orig = pts@;
    if pts.len() < 2 {
        return ;
    }
    let mut i: usize = 1;
    while i < pts.len()
        invariant
            in_bounds(c),
            1 <= i <= pts@.len(),
            pts@.len() == orig.len(),
            pts@.to_multiset() == orig.to_multiset(),
            sum_x(pts@) == sum_x(orig),
            sum_y(pts@) == sum_y(orig),
            all_in_bounds(pts@),
            sorted_around(c, pts@.take(i as int)),
        decreases pts@.len() - i,
    {
        let key = pts[i];
        let ghost s0 = pts@;
        let mut j: usize = i;
        while j > 0 && !angle_le_exec(c, pts[j - 1], key)
            invariant
                in_bounds(c),
                in_bounds(key),
                0 <= j <= i < s0.len(),
                pts@ == s0,
                all_in_bounds(s0),
                key == s0[i as int],
                forall|k: int| j <= k < i ==> !angle_le(c, #[trigger] s0[k], key),
            decreases j,
        {
            j = j - 1;
        }
        let key2 = pts.remove(i);
        pts.insert(j, key2);
        proof {
            lemma_insertion_step(c, s0, pts@, i as int, j as int);
        }
        i = i + 1;
    }
    proof {
        assert(pts@.take(pts@.len() as int) =~= pts@);
    }
}

/// One insertion step keeps the collection, the sums and the bounds, and
/// extends the sorted prefix by one.
proof fn lemma_insertion_step(c: Point2, s0: Seq<Point2>, s1: Seq<Point2>, i: int, j: int)
    requires
        in_bounds(c),
        all_in_bounds(s0),
        0 <= j <= i < s0.len(),
        s1 == s0.remove(i).insert(j, s0[i]),
        sorted_around(c, s0.take(i)),
        forall|k: int| j <= k < i ==> !angle_le(c, #[trigger] s0[k], s0[i]),
        j > 0 ==> angle_le(c, s0[j - 1], s0[i]),
    ensures
        s1.len() == s0.len(),
        s1.to_multiset() == s0.to_multiset(),
        sum_x(s1) == sum_x(s0),
        sum_y(s1) == sum_y(s0),
        all_in_bounds(s1),
        sorted_around(c, s1.take(i + 1)),
{
    let key = s0[i];
    let m = s0.remove(i);
    broadcast use vstd::seq_lib::to_multiset_remove;
    broadcast use vstd::seq_lib::to_multiset_insert;
    broadcast use vstd::seq_lib::group_to_multiset_ensures;

    assert(s0.contains(key));
    assert(s1.to_multiset() =~= s0.to_multiset());
    lemma_sums_remove(s0, i);
    lemma_sums_insert(m, j, key);
    assert forall|k: int| 0 <= k < s1.len() implies in_bounds(#[trigger] s1[k]) by {
        if k < j {
            assert(s1[k] == s0[k]);
        } else if k == j {
            assert(s1[k] == key);
        } else if k <= i {
            assert(s1[k] == s0[k - 1]);
        } else {
            assert(s1[k] == s0[k]);
        }
    }
    let t = s1.take(i + 1);
    assert forall|k: int| 0 <= k < t.len() - 1 implies #[trigger] angle_le(c, t[k], t[k + 1]) by {
        assert(t[k] == s1[k] && t[k + 1] == s1[k + 1]);
        if k + 1 < j {
            assert(angle_le(c, s0.take(i)[k], s0.take(i)[k + 1]));
            assert(s1[k] == s0[k] && s1[k + 1] == s0[k + 1]);
        } else if k + 1 == j {
            assert(s1[k] == s0[k] && s1[k + 1] == key);
        } else if k == j {
            assert(s1[k] == key && s1[k + 1] == s0[k]);
            lemma_angle_le_total(c, s0[k], key);
        } else {
            assert(s1[k] == s0[k - 1] && s1[k + 1] == s0[k]);
            assert(angle_le(c, s0.take(i)[k - 1], s0.take(i)[k - 1 + 1]));
        }
    }
}

} // verus!
