//! The craft: shape constraint, throttles, gravity descent, landing.

use lander::geom::Point;
use lander::ship::{Land, Ship, Throttle};

fn origin_y(ship: &Ship) -> i64 {
    ship.origin().1
}

/// Distance between two points in world units, for tolerance checks.
fn dist_units(a: Point, b: Point) -> f64 {
    let dx = (a.0 - b.0) as f64 / 1_000_000.0;
    let dy = (a.1 - b.1) as f64 / 1_000_000.0;
    (dx * dx + dy * dy).sqrt()
}

#[test]
fn new_ship_is_level_and_at_rest() {
    let ship = Ship::new();
    assert_eq!(ship.origin(), Point(0, 0));
    assert_eq!(ship.direction(), Point(0, 1_000_000));
    assert!(ship.active_throttles().is_empty());
}

#[test]
fn throttle_set_is_idempotent() {
    let mut ship = Ship::new();
    ship.throttle(Throttle::Left, true);
    ship.throttle(Throttle::Left, true);
    assert_eq!(ship.active_throttles(), vec![-1]);
    ship.throttle(Throttle::Bottom, true);
    ship.throttle(Throttle::Right, true);
    assert_eq!(ship.active_throttles(), vec![-1, 0, 1]);
    ship.throttle(Throttle::Left, false);
    ship.throttle(Throttle::Left, false);
    assert_eq!(ship.active_throttles(), vec![0, 1]);
}

#[test]
fn gravity_descent_lands_without_bounce() {
    // The craft starts at rest thirty units above flat ground, with no
    // throttle.  Its origin falls monotonically until ground contact.
    // The one-pass shape solver then lifts it briefly (under two units)
    // while the top point settles, after which it rests at ground height
    // for good - the landing is inelastic, with no repeated bouncing.
    let mut ship = Ship::new();
    let mut land = Land::new();
    let ground: i64 = -30_000_000;

    let mut prev_y = origin_y(&ship);
    let mut landed_at: Option<usize> = None;
    let mut ys: Vec<i64> = Vec::new();
    for step in 0..200 {
        ship.integrate(&mut land);
        let y = origin_y(&ship);
        assert!(y >= ground, "the craft may not sink below ground at step {step}");
        if landed_at.is_none() {
            assert!(y <= prev_y, "the falling craft may not rise at step {step}");
            if y == ground {
                landed_at = Some(step);
            }
        } else {
            assert!(
                y <= ground + 2_000_000,
                "after contact the craft stays at ground height, step {step}"
            );
        }
        ys.push(y);
        prev_y = y;
    }
    assert!(landed_at.is_some(), "the craft must reach the ground");
    // Fully settled: the last fifty steps sit exactly on the ground.
    for &y in &ys[150..] {
        assert_eq!(y, ground, "the settled craft does not bounce");
    }
}

#[test]
fn bottom_throttle_reverses_descent() {
    // Let the craft fall, then fire the bottom throttle: its thrust is
    // three times gravity, so a prior downward velocity must reverse.
    let mut ship = Ship::new();
    let mut land = Land::new();
    for _ in 0..15 {
        ship.integrate(&mut land);
    }
    let falling = origin_y(&ship);
    assert!(falling < 0, "the craft must have been descending");

    ship.throttle(Throttle::Bottom, true);
    let mut lowest = falling;
    let mut final_y = falling;
    for _ in 0..45 {
        ship.integrate(&mut land);
        let y = origin_y(&ship);
        if y < lowest {
            lowest = y;
        }
        final_y = y;
    }
    assert!(final_y > lowest, "the descent must reverse into a climb");
    assert!(lowest > -30_000_000, "the craft must not have hit the ground");
}

#[test]
fn asymmetric_thrust_rotates_the_craft() {
    // Only the left throttle fires: the one-sided thrust must tilt the
    // craft's direction, not merely translate it.
    let mut ship = Ship::new();
    let mut land = Land::new();
    assert_eq!(ship.direction().0, 0);

    ship.throttle(Throttle::Left, true);
    for _ in 0..10 {
        ship.integrate(&mut land);
    }
    let d = ship.direction();
    assert!(d.0 > 0, "the raised left side must tilt the direction rightward");
}

#[test]
fn shape_constraint_holds_in_flight() {
    // After any airborne integration step the triangle is rigid again:
    // top-to-center five units, bottom half-width three units, within a
    // small numeric tolerance.
    let mut ship = Ship::new();
    let mut land = Land::new();
    ship.throttle(Throttle::Left, true);
    for step in 0..12 {
        ship.integrate(&mut land);

        let b0 = ship.bottom.0.position;
        let b1 = ship.bottom.1.position;
        let top = ship.top.position;
        let origin = ship.origin();
        let center = Point(
            (origin.0 + top.0) / 2,
            (origin.1 + top.1) / 2,
        );
        let top_dist = dist_units(top, center);
        let half_width = dist_units(b0, b1) / 2.0;
        assert!(
            (top_dist - 5.0).abs() < 1e-3,
            "top distance {top_dist} at step {step}"
        );
        assert!(
            (half_width - 3.0).abs() < 1e-3,
            "half width {half_width} at step {step}"
        );
    }
}
