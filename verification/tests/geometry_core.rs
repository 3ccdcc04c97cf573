//! End-to-end checks of the geometry core: convexity, triangulation, the
//! rigid-body transform, polygon generation, and the body type.
use asteroid_geom::geometry::GeometryError;
use asteroid_geom::geometry::Point2;
use asteroid_geom::geometry::UNIT_SCALE;
use asteroid_geom::geometry::is_convex;
use asteroid_geom::angular::angle_le_exec;
use asteroid_geom::objects::Asteroid;
use asteroid_geom::objects::BodyHandle;
use asteroid_geom::polygons::Polygon;
use asteroid_geom::polygons::centroid;
use asteroid_geom::polygons::equilateral;
use asteroid_geom::polygons::random;
use asteroid_geom::transform::Rotation;
use asteroid_geom::transform::to_world;
use asteroid_geom::triangulation::TriangleIndices;
use asteroid_geom::triangulation::triangle_vertices;
use asteroid_geom::triangulation::triangulate_polygon;

/// One world unit in coordinate subunits, matching the rotation scale.
const SUB: i64 = 1_000_000;

fn pt(x: i64, y: i64) -> Point2 {
    Point2 { x, y }
}

/// A rotation by the given angle in radians, rounded to subunits.
fn rotation_of(theta: f64) -> Rotation {
    Rotation {
        cos_u: (theta.cos() * UNIT_SCALE as f64).round() as i64,
        sin_u: (theta.sin() * UNIT_SCALE as f64).round() as i64,
    }
}

fn unit_square() -> Vec<Point2> {
    vec![
        pt(-SUB / 2, -SUB / 2),
        pt(SUB / 2, -SUB / 2),
        pt(SUB / 2, SUB / 2),
        pt(-SUB / 2, SUB / 2),
    ]
}

/// Twice the signed area of a loop, by the shoelace sum.
fn shoelace_twice(pts: &[Point2]) -> i128 {
    let n = pts.len();
    let mut sum: i128 = 0;
    for i in 0..n {
        let a = pts[i];
        let b = pts[(i + 1) % n];
        sum += a.x as i128 * b.y as i128 - a.y as i128 * b.x as i128;
    }
    sum
}

#[test]
fn is_convex_basic_corners() {
    // A square corner with the previous edge along +x and the next along +y:
    // the edge-vector cross product is positive, a convex corner under the
    // library's winding convention.
    assert!(is_convex(pt(10, 0), pt(0, 0), pt(0, 10)));
    // The same corner walked the other way: concave.
    assert!(!is_convex(pt(0, 10), pt(0, 0), pt(10, 0)));
    // Collinear triple counts as convex.
    assert!(is_convex(pt(-10, 0), pt(0, 0), pt(10, 0)));
}

#[test]
fn is_convex_scale_invariant() {
    let triples = [
        (pt(0, 10), pt(0, 0), pt(10, 0)),
        (pt(10, 0), pt(0, 0), pt(0, 10)),
        (pt(3, 7), pt(-2, 5), pt(9, -4)),
    ];
    for (a, b, c) in triples {
        let base = is_convex(a, b, c);
        for k in [2i64, 10, 1000] {
            let scaled = is_convex(
                pt(a.x * k, a.y * k),
                pt(b.x * k, b.y * k),
                pt(c.x * k, c.y * k),
            );
            assert_eq!(base, scaled);
        }
    }
}

#[test]
fn is_convex_translation_invariant() {
    let triples = [
        (pt(0, 10), pt(0, 0), pt(10, 0)),
        (pt(10, 0), pt(0, 0), pt(0, 10)),
        (pt(3, 7), pt(-2, 5), pt(9, -4)),
    ];
    for (a, b, c) in triples {
        let base = is_convex(a, b, c);
        for (dx, dy) in [(100i64, -50i64), (-999, 999), (123456, 654321)] {
            let moved = is_convex(
                pt(a.x + dx, a.y + dy),
                pt(b.x + dx, b.y + dy),
                pt(c.x + dx, c.y + dy),
            );
            assert_eq!(base, moved);
        }
    }
}

#[test]
fn triangulate_square_is_two_triangles() {
    let square = unit_square();
    let ts = triangulate_polygon(&square).unwrap();
    assert_eq!(ts.len(), 2);
    assert_eq!(ts[0], TriangleIndices { a: 0, b: 1, c: 2 });
    assert_eq!(ts[1], TriangleIndices { a: 0, b: 2, c: 3 });
}

#[test]
fn triangulate_rejects_too_few_vertices() {
    let two = vec![pt(0, 0), pt(10, 0)];
    assert_eq!(
        triangulate_polygon(&two).unwrap_err(),
        GeometryError::NotSimplePolygon
    );
    let none: Vec<Point2> = Vec::new();
    assert_eq!(
        triangulate_polygon(&none).unwrap_err(),
        GeometryError::NotSimplePolygon
    );
}

fn twice_area_of_triangle(o: Point2, a: Point2, b: Point2) -> i128 {
    (a.x as i128 - o.x as i128) * (b.y as i128 - o.y as i128)
        - (a.y as i128 - o.y as i128) * (b.x as i128 - o.x as i128)
}

#[test]
fn triangle_areas_sum_to_polygon_area() {
    // A concave quadrilateral (a dart): the signed triangle areas still sum
    // exactly to the polygon's shoelace area.
    let dart = vec![pt(0, 0), pt(10_000, 2_000), pt(20_000, 0), pt(10_000, 14_000)];
    let ts = triangulate_polygon(&dart).unwrap();
    assert_eq!(ts.len(), 2);
    let mut sum: i128 = 0;
    for t in &ts {
        sum += twice_area_of_triangle(dart[t.a], dart[t.b], dart[t.c]);
    }
    assert_eq!(sum, shoelace_twice(&dart));
}

#[test]
fn triangle_vertices_of_square() {
    let square = unit_square();
    let pieces = triangle_vertices(&square).unwrap();
    assert_eq!(pieces.len(), 2);
    assert_eq!(pieces[0], (square[0], square[1], square[2]));
    assert_eq!(pieces[1], (square[0], square[2], square[3]));
}

#[test]
fn to_world_identity_is_exact() {
    let v = pt(123_456, -654_321);
    let w = to_world(v, pt(0, 0), Rotation::identity());
    assert_eq!(w, v);
}

#[test]
fn to_world_translates_without_rotation() {
    // A body at (100, 50) with rotation zero: every corner of the unit square
    // moves by exactly (100, 50) and nothing else.
    let square = unit_square();
    let position = pt(100 * SUB, 50 * SUB);
    for v in &square {
        let w = to_world(*v, position, Rotation::identity());
        assert_eq!(w, pt(v.x + 100 * SUB, v.y + 50 * SUB));
    }
}

#[test]
fn quarter_turn_maps_unit_x_to_unit_y() {
    let rot = rotation_of(std::f64::consts::FRAC_PI_2);
    assert_eq!(rot.cos_u, 0);
    assert_eq!(rot.sin_u, UNIT_SCALE);
    let w = to_world(pt(SUB, 0), pt(0, 0), rot);
    assert_eq!(w, pt(0, SUB));
}

#[test]
fn draw_of_translated_square_body() {
    let square = unit_square();
    let shape = Polygon::new(square.clone()).unwrap();
    let handle = BodyHandle { index: 4, generation: 1 };
    let body = Asteroid::new(shape, handle);
    assert_eq!(body.get_rigid_body_handle(), handle);
    assert_eq!(body.get_shape().vertices(), &square);

    let position = pt(100 * SUB, 50 * SUB);
    let world = body.draw(Some((position, Rotation::identity()))).unwrap();
    assert_eq!(world.len(), 4);
    for (w, v) in world.iter().zip(square.iter()) {
        assert_eq!(*w, pt(v.x + 100 * SUB, v.y + 50 * SUB));
    }
}

#[test]
fn draw_of_rotated_square_body() {
    // Rotating a unit-square body a quarter turn about its own origin maps
    // the local vertex (1, 0) to the world vertex (0, 1).
    let corners = vec![pt(SUB, 0), pt(0, SUB), pt(-SUB, 0), pt(0, -SUB)];
    let shape = Polygon::new(corners).unwrap();
    let body = Asteroid::new(shape, BodyHandle { index: 0, generation: 0 });
    let rot = rotation_of(std::f64::consts::FRAC_PI_2);
    let world = body.draw(Some((pt(0, 0), rot))).unwrap();
    assert_eq!(world[0], pt(0, SUB));
}

#[test]
fn draw_with_stale_handle_fails() {
    let shape = Polygon::new(unit_square()).unwrap();
    let body = Asteroid::new(shape, BodyHandle { index: 9, generation: 2 });
    assert_eq!(body.draw(None).unwrap_err(), GeometryError::StaleHandle);
}

#[test]
fn polygon_new_rejects_short_loops() {
    let two = vec![pt(0, 0), pt(10, 0)];
    assert_eq!(
        Polygon::new(two).unwrap_err(),
        GeometryError::InvalidVertexCount
    );
}

#[test]
fn centroid_of_known_points() {
    let pts = vec![pt(0, 0), pt(10, 0), pt(10, 10), pt(0, 10)];
    assert_eq!(centroid(&pts), pt(5, 5));
    let skewed = vec![pt(-9, 0), pt(0, 0), pt(0, 3)];
    // Sums (-9, 3) over three points, each quotient rounded toward zero.
    assert_eq!(centroid(&skewed), pt(-3, 1));
}

#[test]
fn hexagon_triangulation_matches_analytic_area() {
    // A regular hexagon of side length 10: circumradius equals the side, and
    // the analytic area is (3 * sqrt(3) / 2) * 10^2.
    let sides: usize = 6;
    let mut dirs: Vec<Point2> = Vec::new();
    for i in 0..sides {
        let theta = 2.0 * std::f64::consts::PI * i as f64 / sides as f64;
        dirs.push(pt(
            (theta.cos() * UNIT_SCALE as f64).round() as i64,
            (theta.sin() * UNIT_SCALE as f64).round() as i64,
        ));
    }
    let radius: i64 = 10 * SUB;
    let hexagon = equilateral(&dirs, radius).unwrap();
    assert_eq!(hexagon.len(), 6);

    let ts = triangulate_polygon(hexagon.vertices()).unwrap();
    assert_eq!(ts.len(), 4);
    for t in &ts {
        assert!(t.a < 6 && t.b < 6 && t.c < 6);
    }

    let verts = hexagon.vertices();
    let mut twice_sum: i128 = 0;
    for t in &ts {
        twice_sum += twice_area_of_triangle(verts[t.a], verts[t.b], verts[t.c]);
    }
    let area_units = twice_sum as f64 / 2.0 / (SUB as f64 * SUB as f64);
    let analytic = 3.0_f64.sqrt() * 1.5 * 100.0;
    assert!(((area_units - analytic) / analytic).abs() < 1e-6);
}

#[test]
fn equilateral_rejects_too_few_directions() {
    let dirs = vec![pt(UNIT_SCALE, 0), pt(-UNIT_SCALE, 0)];
    assert_eq!(
        equilateral(&dirs, 10 * SUB).unwrap_err(),
        GeometryError::InvalidVertexCount
    );
}

#[test]
fn random_polygon_is_sorted_and_in_box() {
    let poly = random(42, (8, 15), (10 * SUB, 25 * SUB)).unwrap();
    let n = poly.len();
    assert!((8..15).contains(&n));
    let verts = poly.vertices();
    for v in verts {
        assert!(v.x.abs() <= 5 * SUB);
        assert!(v.y.abs() <= 25 * SUB / 2);
    }
    let c = centroid(verts);
    for i in 0..n - 1 {
        assert!(angle_le_exec(c, verts[i], verts[i + 1]));
    }
}

#[test]
fn random_polygon_is_reproducible() {
    let a = random(7, (5, 9), (10 * SUB, 10 * SUB)).unwrap();
    let b = random(7, (5, 9), (10 * SUB, 10 * SUB)).unwrap();
    assert_eq!(a.vertices(), b.vertices());
    let c = random(8, (5, 9), (10 * SUB, 10 * SUB)).unwrap();
    // A different seed is allowed to collide, but these two do not.
    assert_ne!(a.vertices(), c.vertices());
}

#[test]
fn random_pins_count_with_singleton_range() {
    let poly = random(1, (5, 6), (10 * SUB, 10 * SUB)).unwrap();
    assert_eq!(poly.len(), 5);
}

#[test]
fn random_rejects_bad_ranges() {
    assert_eq!(
        random(1, (2, 5), (SUB, SUB)).unwrap_err(),
        GeometryError::InvalidVertexCount
    );
    assert_eq!(
        random(1, (5, 5), (SUB, SUB)).unwrap_err(),
        GeometryError::InvalidVertexCount
    );
}
