//! The Verlet point mass: implicit velocity, impulses, integration.

use lander::geom::Point;
use lander::inertia::Inertia;

#[test]
fn new_point_is_at_rest() {
    let p = Inertia::new(Point(5_000_000, 3_000_000));
    assert_eq!(p.inertia(), Point(0, 0));
    assert_eq!(p.position, Point(5_000_000, 3_000_000));
    assert_eq!(p.prev, Point(5_000_000, 3_000_000));
}

#[test]
fn integrate_keeps_velocity_and_advances_by_it() {
    let mut p = Inertia::new(Point(5_000_000, 3_000_000));
    p.force(Point(10_000_000, -20_000_000));
    let v = p.inertia();
    assert_eq!(v, Point(1_000_000, -2_000_000));

    let before = p.position;
    p.integrate();
    // Velocity is unchanged and the position advanced by exactly it.
    assert_eq!(p.inertia(), v);
    assert_eq!(p.position, Point(before.0 + v.0, before.1 + v.1));

    // And again: the free point keeps coasting.
    p.integrate();
    assert_eq!(p.inertia(), v);
}

#[test]
fn force_then_integrate_changes_velocity_by_scaled_force() {
    let mut p = Inertia::new(Point(0, 0));
    let v0 = p.inertia();

    p.force(Point(300_000, -40));
    p.integrate();
    // The velocity changed by exactly force times the 0.1 step duration.
    assert_eq!(p.inertia(), Point(v0.0 + 30_000, v0.1 - 4));
}

#[test]
fn forces_accumulate_linearly() {
    let mut p = Inertia::new(Point(0, 0));
    p.force(Point(100_000, 0));
    p.force(Point(250_000, -500_000));
    p.integrate();
    assert_eq!(p.inertia(), Point(35_000, -50_000));
}

#[test]
fn step_duration_is_a_tenth_of_a_unit() {
    assert_eq!(Inertia::step(), 100);
}
