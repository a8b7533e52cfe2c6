//! The terrain store: windowing, monotonicity, queries, collision.

use lander::geom::{Line, Point};
use lander::ship::Land;

/// The vertex sequence reconstructed from the public segment list.
fn vertices(land: &Land) -> Vec<Point> {
    let segments: Vec<Line> = land.all();
    let mut vs: Vec<Point> = Vec::new();
    vs.push(segments[0].0);
    for s in &segments {
        vs.push(s.1);
    }
    vs
}

fn check_window(land: &Land) {
    let vs = vertices(land);
    assert!(vs.len() >= 2);
    for w in vs.windows(2) {
        let dx = w[1].0 - w[0].0;
        assert!(dx >= 10_000_000, "x not strictly increasing by the step bound");
        assert!(dx <= 30_000_000);
        assert!((w[1].1 - w[0].1).abs() <= 30_000_000);
    }
}

#[test]
fn window_stays_monotonic_under_arbitrary_queries() {
    let mut land = Land::new();
    let queries: [i64; 9] = [
        0,
        200_000_000,
        -350_000_000,
        1_200_000_000,
        -1_200_000_000,
        0,
        3_000_000_000,
        2_999_000_000,
        -5_000_000_000,
    ];
    for &x in queries.iter() {
        land.get(x);
        check_window(&land);
    }
}

#[test]
fn get_brackets_the_query() {
    let mut land = Land::new();
    let queries: [i64; 7] = [
        0,
        17,
        -123_456_789,
        987_654_321,
        -2_000_000_000,
        2_000_000_000,
        55_555_555,
    ];
    for &x in queries.iter() {
        let seg = land.get(x);
        assert!(seg.0 .0 <= x && x <= seg.1 .0, "segment must bracket the query");
    }
}

#[test]
fn get_covers_query_with_margin() {
    let mut land = Land::new();
    land.get(700_000_000);
    let vs = vertices(&land);
    assert!(vs[0].0 <= 700_000_000 - 500_000_000);
    assert!(vs[vs.len() - 1].0 >= 700_000_000 + 500_000_000);
}

#[test]
fn window_shrinks_with_hysteresis() {
    let mut land = Land::new();
    land.get(-4_000_000_000);
    land.get(4_000_000_000);
    let vs = vertices(&land);
    // Everything further than the shrink radius behind the last query is
    // trimmed; the band between the two radii may stay.
    assert!(vs[0].0 >= 4_000_000_000 - 800_000_000);
    assert!(vs[vs.len() - 1].0 <= 4_000_000_000 + 800_000_000);
    assert!(vs.len() >= 2);
}

#[test]
fn generated_terrain_varies() {
    let mut land = Land::new();
    land.get(6_000_000_000);
    let vs = vertices(&land);
    assert!(vs.len() > 40);
    // A generator that always returned the lower end of its range would
    // make every x step exactly ten units and every y step exactly minus
    // thirty; fresh draws vary.
    let mut dxs: Vec<i64> = Vec::new();
    let mut dys: Vec<i64> = Vec::new();
    for w in vs.windows(2) {
        dxs.push(w[1].0 - w[0].0);
        dys.push(w[1].1 - w[0].1);
    }
    assert!(dxs.iter().any(|&d| d != 10_000_000));
    assert!(dys.iter().any(|&d| d != -30_000_000));
}

#[test]
fn collision_snaps_point_below_ground_onto_projection() {
    let mut land = Land::new();
    let mut pos = Point(0, -40_000_000);
    land.handle_collision(&mut pos);
    // The initial ground is flat at minus thirty units.
    assert_eq!(pos, Point(0, -30_000_000));
}

#[test]
fn collision_leaves_point_above_ground_untouched() {
    let mut land = Land::new();
    let mut pos = Point(2_000_000, -20_000_000);
    land.handle_collision(&mut pos);
    assert_eq!(pos, Point(2_000_000, -20_000_000));
}

#[test]
fn collision_never_leaves_point_below_ground() {
    let mut land = Land::new();
    for k in 0..40i64 {
        let x = k * 37_000_000 - 700_000_000;
        let seg = land.get(x);
        let mut pos = Point(x, -3_000_000_000);
        land.handle_collision(&mut pos);
        let hit = Line(seg.0, seg.1).projection(Point(x, -3_000_000_000));
        assert!(pos.1 >= hit.1 - 1, "snapped point may not stay below the ground");
    }
}

#[test]
fn gravity_impulse_shifts_prev_down() {
    let mut land = Land::new();
    let mut p = lander::inertia::Inertia::new(Point(0, 0));
    land.apply_gravity(&mut p);
    assert_eq!(p.position, Point(0, 0));
    assert_eq!(p.prev, Point(0, 32_000));
    assert_eq!(p.inertia(), Point(0, -32_000));
}

#[test]
fn repeated_query_returns_the_same_segment() {
    // The window keeps its stored vertices: querying the same x twice
    // returns the very same stored segment.
    let mut land = Land::new();
    let a = land.get(123_456_789);
    let b = land.get(123_456_789);
    assert_eq!(a, b);
}
