use gift_wrapping::geometry::{Orientation, Point};
use gift_wrapping::hull::find_convex_hull;

fn points_of(coords: &[(i64, i64)]) -> Vec<Point> {
    let mut ps: Vec<Point> = Vec::new();
    for &(x, y) in coords {
        ps.push(Point::new(x, y));
    }
    ps
}

/// Every input point must lie on or inside the hull: no point may make a
/// counter-clockwise turn with any directed hull edge.
fn assert_all_points_enclosed(points: &Vec<Point>, hull: &Vec<usize>) {
    for w in 0..hull.len() - 1 {
        let a = points[hull[w]];
        let b = points[hull[w + 1]];
        for &p in points.iter() {
            let o = Orientation::from_points(a, b, p);
            assert_ne!(o, Orientation::CounterClockwise);
        }
    }
}

#[test]
fn orientation_clockwise_turn() {
    let o = Orientation::from_points(Point::new(0, 0), Point::new(0, 1), Point::new(1, 1));
    assert_eq!(o, Orientation::Clockwise);
}

#[test]
fn orientation_counter_clockwise_turn() {
    let o = Orientation::from_points(Point::new(0, 0), Point::new(1, 1), Point::new(0, 1));
    assert_eq!(o, Orientation::CounterClockwise);
}

#[test]
fn orientation_collinear() {
    let o = Orientation::from_points(Point::new(0, 0), Point::new(1, 1), Point::new(2, 2));
    assert_eq!(o, Orientation::Collinear);
}

#[test]
fn orientation_coincident_points_collinear() {
    let p = Point::new(3, -7);
    let o = Orientation::from_points(p, p, p);
    assert_eq!(o, Orientation::Collinear);
    let o2 = Orientation::from_points(p, Point::new(5, 5), p);
    assert_eq!(o2, Orientation::Collinear);
}

#[test]
fn orientation_at_extreme_coordinates() {
    let m: i64 = 0x2000_0000_0000_0000;
    let o = Orientation::from_points(Point::new(-m, 0), Point::new(m, 0), Point::new(0, m));
    assert_eq!(o, Orientation::CounterClockwise);
    let o2 = Orientation::from_points(Point::new(-m, -m), Point::new(0, 0), Point::new(m, m));
    assert_eq!(o2, Orientation::Collinear);
}

#[test]
fn hull_of_square_with_interior_point() {
    let points = points_of(&[(0, 0), (4, 0), (4, 4), (0, 4), (2, 2)]);
    let hull = find_convex_hull(&points).unwrap();
    // The four corners in cyclic order from the first minimum-x point; the
    // interior point (index 4) is excluded.
    assert_eq!(hull, vec![0, 3, 2, 1, 0]);
}

#[test]
fn hull_first_and_last_equal_intermediates_distinct() {
    let points = points_of(&[(0, 0), (4, 0), (4, 4), (0, 4), (2, 2)]);
    let hull = find_convex_hull(&points).unwrap();
    assert_eq!(hull[0], hull[hull.len() - 1]);
    for i in 0..hull.len() - 1 {
        for j in i + 1..hull.len() - 1 {
            assert_ne!(hull[i], hull[j]);
        }
    }
}

#[test]
fn hull_encloses_all_points() {
    let points = points_of(&[(0, 0), (4, 0), (4, 4), (0, 4), (2, 2)]);
    let hull = find_convex_hull(&points).unwrap();
    assert_all_points_enclosed(&points, &hull);
}

#[test]
fn hull_encloses_scattered_points() {
    let points = points_of(&[
        (-3, 1),
        (2, 5),
        (0, 0),
        (7, -2),
        (4, 4),
        (-1, -6),
        (3, 2),
        (1, 1),
    ]);
    let hull = find_convex_hull(&points).unwrap();
    assert_eq!(hull[0], hull[hull.len() - 1]);
    assert_all_points_enclosed(&points, &hull);
}

#[test]
fn hull_excludes_collinear_edge_point() {
    let points = points_of(&[(0, 0), (2, 0), (4, 0), (4, 4), (0, 4)]);
    let hull = find_convex_hull(&points).unwrap();
    // (2, 0) lies strictly between the bottom-edge extremes and is excluded.
    assert_eq!(hull, vec![0, 4, 3, 2, 0]);
    assert!(!hull.contains(&1));
}

#[test]
fn hull_of_all_collinear_points() {
    // Degenerate input: every point is collinear. No replacement ever fires,
    // so the march walks the index cycle once and closes: the result visits
    // every index and is a flat polygon, not a two-dimensional one.
    let points = points_of(&[(0, 0), (1, 1), (2, 2)]);
    let hull = find_convex_hull(&points).unwrap();
    assert_eq!(hull, vec![0, 1, 2, 0]);
}

#[test]
fn hull_of_duplicate_points() {
    // Degenerate input: three copies of one point behave like the collinear
    // case; the march walks the index cycle once and closes.
    let points = points_of(&[(1, 1), (1, 1), (1, 1)]);
    let hull = find_convex_hull(&points).unwrap();
    assert_eq!(hull, vec![0, 1, 2, 0]);
}

#[test]
fn hull_of_non_closing_march_is_none() {
    // The first minimum-x point (0, 1) lies strictly inside the hull edge
    // from (0, 0) to (0, 2), so the march circles the true hull vertices
    // without ever revisiting its starting index: no hull is produced.
    let points = points_of(&[(0, 1), (0, 0), (0, 2), (2, 1)]);
    assert_eq!(find_convex_hull(&points), None);
}

#[test]
fn hull_of_no_points_is_none() {
    let points: Vec<Point> = Vec::new();
    assert_eq!(find_convex_hull(&points), None);
}

#[test]
fn hull_of_one_point_is_none() {
    let points = points_of(&[(5, 5)]);
    assert_eq!(find_convex_hull(&points), None);
}

#[test]
fn hull_of_two_points_is_none() {
    let points = points_of(&[(0, 0), (3, 1)]);
    assert_eq!(find_convex_hull(&points), None);
}

#[test]
fn hull_starts_at_first_minimum_x() {
    // Two points share the minimum x-coordinate; the first one encountered
    // becomes the starting index.
    let points = points_of(&[(3, 0), (0, 2), (0, -2), (5, 1)]);
    let hull = find_convex_hull(&points).unwrap();
    assert_eq!(hull[0], 1);
}
