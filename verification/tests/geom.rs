//! Segment geometry: intersection, projection, normalisation.
//! Coordinates are fixed-point: one world unit is 1_000_000 steps.

use lander::geom::{Line, Point};

#[test]
fn line_intersects_on_zero() {
    let a = Line(Point(-1_000_000, -1_000_000), Point(1_000_000, 1_000_000));
    let b = Line(Point(-1_000_000, 1_000_000), Point(1_000_000, -1_000_000));

    assert_eq!(a.intersects(b), true);
}

#[test]
fn line_doesnt_intersect() {
    let a = Line(Point(-1_000_000, -1_000_000), Point(1_000_000, 1_000_000));
    let b = Line(Point(-1_000_000, 1_000_000), Point(1_000_000, -1_000_000));
    let a = a.shift(Point(-3_000_000, -3_000_000));

    assert_eq!(a.intersects(b), false);
}

#[test]
fn line_with_many_intersections() {
    let a = Line(Point(-1_000_000, 0), Point(500_000, 0));
    let b = Line(Point(-500_000, 0), Point(1_000_000, 0));

    assert_eq!(a.intersects(b), true);
}

#[test]
fn colinear_that_doesnt_intersect() {
    let a = Line(Point(-1_000_000, 0), Point(-500_000, 0));
    let b = Line(Point(500_000, 0), Point(1_000_000, 0));

    assert_eq!(a.intersects(b), false);
}

#[test]
fn point_length_is_rounded_euclidean() {
    // A 3-4-5 triangle, exactly.
    assert_eq!(Point(3_000_000, 4_000_000).len(), 5_000_000);
    assert_eq!(Point(0, -2_000_000).len(), 2_000_000);
    // An irrational length rounds down: sqrt(2) to six decimals.
    assert_eq!(Point(1_000_000, 1_000_000).len(), 1_414_213);
}

#[test]
fn unit_vector_is_scale_long() {
    let u = Point(0, -7_000_000).unit();
    assert_eq!(u, Point(0, -1_000_000));
    let u = Point(3_000_000, 4_000_000).unit();
    assert_eq!(u, Point(600_000, 800_000));
    // The zero vector stays zero rather than dividing by zero.
    assert_eq!(Point(0, 0).unit(), Point(0, 0));
}

#[test]
fn rot90_turns_clockwise() {
    assert_eq!(Point(2, 3).rot90(), Point(3, -2));
    assert_eq!(Point(0, 1_000_000).rot90(), Point(1_000_000, 0));
}

#[test]
fn dot_and_scalars() {
    assert_eq!(Point(2_000_000, 3_000_000).dot(Point(4, 5)), 23_000_000);
    assert_eq!(Point(10, -11).scaled(3), Point(30, -33));
    assert_eq!(Point(9, -9).half(), Point(4, -4));
    assert_eq!(Point(2_000_000, -4_000_000).mulfix(500_000), Point(1_000_000, -2_000_000));
}

#[test]
fn projection_onto_flat_segment() {
    let ground = Line(Point(-15_000_000, -30_000_000), Point(15_000_000, -30_000_000));
    let hit = ground.projection(Point(4_000_000, -45_000_000));
    assert_eq!(hit, Point(4_000_000, -30_000_000));
}

#[test]
fn projection_onto_sloped_segment() {
    // A 45-degree slope through the origin; the projection of a point on
    // the axis lands halfway up, within fixed-point rounding.
    let slope = Line(Point(0, 0), Point(10_000_000, 10_000_000));
    let hit = slope.projection(Point(10_000_000, 0));
    assert!((hit.0 - 5_000_000).abs() < 100);
    assert!((hit.1 - 5_000_000).abs() < 100);
}

#[test]
fn line_center_and_direction() {
    let l = Line(Point(-2_000_000, 4_000_000), Point(6_000_000, 4_000_000));
    assert_eq!(l.center(), Point(2_000_000, 4_000_000));
    assert_eq!(l.direction(), Point(1_000_000, 0));
    assert_eq!(l.len(), 8_000_000);
}
