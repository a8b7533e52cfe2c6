//! The scheduler and the top-level simulation facade.

use lander::attribute::Attribute;
use lander::ship::{Land, Ship, Throttle};
use lander::target::WgpuRenderTarget;
use lander::world::{IntegrationController, World};

#[test]
fn scheduler_runs_one_step_per_elapsed_step() {
    let mut ship = Ship::new();
    let mut land = Land::new();
    let mut controller = IntegrationController::new(0);

    // Ten full steps elapsed: exactly ten integrations.
    let steps = controller.integrate(&mut ship, &mut land, 1000);
    assert_eq!(steps, 10);

    // No time elapsed since: nothing runs.
    let steps = controller.integrate(&mut ship, &mut land, 1000);
    assert_eq!(steps, 0);
}

#[test]
fn scheduler_runs_nothing_before_one_full_step() {
    let mut ship = Ship::new();
    let mut land = Land::new();
    let mut controller = IntegrationController::new(500);
    let steps = controller.integrate(&mut ship, &mut land, 599);
    assert_eq!(steps, 0);
    // ... and catches up fully once the step is due.
    let steps = controller.integrate(&mut ship, &mut land, 600);
    assert_eq!(steps, 1);
}

#[test]
fn scheduler_catches_up_after_a_long_frame() {
    let mut ship = Ship::new();
    let mut land = Land::new();
    let mut controller = IntegrationController::new(0);
    controller.integrate(&mut ship, &mut land, 330);
    // 330 ms elapsed: steps at 100, 200, 300 ran; the next is due at 400.
    let steps = controller.integrate(&mut ship, &mut land, 399);
    assert_eq!(steps, 0);
    let steps = controller.integrate(&mut ship, &mut land, 1400);
    assert_eq!(steps, 11);
}

#[test]
fn step_duration_is_one_hundred_milliseconds() {
    assert_eq!(IntegrationController::step(), 100);
}

#[test]
fn world_advances_and_reports_state() {
    let mut world = World::new(0);
    assert_eq!(world.origin(), lander::geom::Point(0, 0));
    assert_eq!(world.direction(), lander::geom::Point(0, 1_000_000));
    assert!(world.active_throttles().is_empty());

    let steps = world.redraw(250);
    assert_eq!(steps, 2);
    // Two steps of free fall have lowered the craft.
    assert!(world.origin().1 < 0);

    let segments = world.land_segments();
    assert!(segments.len() >= 1);
    for s in &segments {
        assert!(s.0 .0 < s.1 .0);
    }
}

#[test]
fn world_control_reaches_the_ship() {
    let mut world = World::new(0);
    world.control(Throttle::Left, true);
    world.control(Throttle::Right, true);
    assert_eq!(world.active_throttles(), vec![-1, 1]);
    world.control(Throttle::Right, false);
    assert_eq!(world.active_throttles(), vec![-1]);
}

#[test]
fn render_target_configuration() {
    let mut target = WgpuRenderTarget::new(24);
    assert_eq!(target.get_size(), (1, 1));
    assert_eq!(target.get_init(), 24);
    target.resize(800, 600);
    assert_eq!(target.get_size(), (800, 600));
    assert_eq!(target.get_init(), 24);
}

#[test]
fn attribute_round_trip() {
    let target = WgpuRenderTarget::from_attr(7);
    assert_eq!(*target.attr(), 7);
    assert_eq!(target.get_init(), 7);
}
