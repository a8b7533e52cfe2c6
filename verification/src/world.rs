//! The top-level simulation: a ship, a terrain window, and the
//! fixed-timestep scheduler that drives them from wall-clock time.

use crate::geom::{Line, Point, Vector};
use crate::ship::{origin_of, Land, Ship, Throttle};
use vstd::prelude::*;

verus! {

/// Milliseconds per simulation step: a tenth of a time unit.
pub const STEP_MS: u64 = 100;

/// Each adjacent pair of the state sequence is related by one
/// application of the one-step integration relation.
pub open spec fn steps_linked(tr: Seq<(Ship, Seq<Point>)>) -> bool {
    forall|i: int, j: int|
        0 <= i && i + 1 == j && j < tr.len() ==> #[trigger] Ship::integrate_post(
            tr[i].0,
            tr[i].1,
            tr[j].0,
            tr[j].1,
        )
}

/// Exactly `n` applications of the one-step integration relation lead
/// from the craft and window `(s0, w0)` to `(s1, w1)`: some chain of
/// `n + 1` simulation states links them step by step.
pub open spec fn sim_trace(s0: Ship, w0: Seq<Point>, s1: Ship, w1: Seq<Point>, n: nat) -> bool {
    exists|tr: Seq<(Ship, Seq<Point>)>|
        #[trigger] steps_linked(tr) && tr.len() == n + 1 && tr[0] == (s0, w0) && tr[n as int] == (
        s1,
        w1,
        )
}

/// The fixed-timestep scheduler.  `next_due` is the wall-clock instant,
/// in milliseconds, at which the next simulation step is owed.
pub struct IntegrationController {
    pub next_due: u64,
}

impl IntegrationController {
    /// How many steps are owed at wall-clock time `now`: none before
    /// `next_due`, then one per elapsed step duration.
    pub open spec fn steps_due(next_due: u64, now: u64) -> int {
        if now >= next_due {
            (now - next_due) / (STEP_MS as int) + 1
        } else {
            0
        }
    }

    /// A fresh scheduler: the first step falls due one step duration
    /// after `now_ms`.
    pub fn new(now_ms: u64) -> (r: IntegrationController)
        requires
            now_ms + STEP_MS <= u64::MAX,
        ensures
            r.next_due == now_ms + STEP_MS,
    {
        IntegrationController { next_due: now_ms + STEP_MS }
    }

    /// The fixed step duration, in milliseconds.
    pub fn step() -> (r: u64)
        ensures
            r == STEP_MS,
    {
        100
    }

    /// Catches the simulation up to wall-clock time `now_ms`: runs one
    /// craft integration per owed step, so the simulation neither runs
    /// ahead of real time nor drifts behind it.  Returns how many steps
    /// ran; the craft and terrain went through exactly that many
    /// applications of the one-step integration relation.
    pub fn integrate(&mut self, ship: &mut Ship, land: &mut Land, now_ms: u64) -> (steps: u64)
        requires
            old(ship).valid(),
            old(land).wf(),
            now_ms + 2 * STEP_MS <= u64::MAX,
        ensures
            final(ship).valid(),
            final(land).wf(),
            steps == Self::steps_due(old(self).next_due, now_ms),
            final(self).next_due == old(self).next_due + steps * STEP_MS,
            sim_trace(*old(ship), old(land)@, *final(ship), final(land)@, steps as nat),
            final(ship).throttle_left == old(ship).throttle_left,
            final(ship).throttle_bottom == old(ship).throttle_bottom,
            final(ship).throttle_right == old(ship).throttle_right,
    {
        let mut steps: u64 = 0;
        let ghost mut trace: Seq<(Ship, Seq<Point>)> = seq![(*ship, land@)];
        while self.next_due <= now_ms
            invariant
                ship.valid(),
                land.wf(),
                now_ms + 2 * STEP_MS <= u64::MAX,
                self.next_due == old(self).next_due + steps * STEP_MS,
                steps + Self::steps_due(self.next_due, now_ms) == Self::steps_due(
                    old(self).next_due,
                    now_ms,
                ),
                steps_linked(trace),
                trace.len() == steps + 1,
                trace[0] == (*old(ship), old(land)@),
                trace[steps as int] == (*ship, land@),
                ship.throttle_left == old(ship).throttle_left,
                ship.throttle_bottom == old(ship).throttle_bottom,
                ship.throttle_right == old(ship).throttle_right,
            decreases now_ms + STEP_MS - self.next_due,
        {
            let ghost ship_pre = *ship;
            let ghost window_pre = land@;
            ship.integrate(land);
            proof {
                let pre = trace;
                trace = trace.push((*ship, land@));
                assert(Ship::integrate_post(ship_pre, window_pre, *ship, land@));
                assert forall|i: int, j: int|
                    0 <= i && i + 1 == j && j < trace.len() implies #[trigger] Ship::integrate_post(
                    trace[i].0,
                    trace[i].1,
                    trace[j].0,
                    trace[j].1,
                ) by {
                    if j < pre.len() {
                        assert(trace[i] == pre[i] && trace[j] == pre[j]);
                        assert(Ship::integrate_post(pre[i].0, pre[i].1, pre[j].0, pre[j].1));
                    } else {
                        assert(trace[i] == (ship_pre, window_pre));
                        assert(trace[j] == (*ship, land@));
                    }
                }
            }
            proof {
                let due = self.next_due;
                assert(Self::steps_due(due, now_ms) == (now_ms - due) / (STEP_MS as int) + 1);
                if now_ms >= due + STEP_MS {
                    vstd::arithmetic::div_mod::lemma_div_plus_one(
                        now_ms - due - STEP_MS,
                        STEP_MS as int,
                    );
                    assert(Self::steps_due((due + STEP_MS) as u64, now_ms) == (now_ms - due
                        - STEP_MS) / (STEP_MS as int) + 1);
                } else {
                    assert((now_ms - due) / (STEP_MS as int) == 0) by {
                        vstd::arithmetic::div_mod::lemma_basic_div(
                            now_ms - due,
                            STEP_MS as int,
                        );
                    }
                }
            }
            self.next_due = self.next_due + Self::step();
            steps = steps + 1;
        }
        proof {
            assert(steps_linked(trace) && trace.len() == steps as nat + 1 && trace[0] == (
            *old(ship),
            old(land)@,
            ) && trace[steps as int] == (*ship, land@));
            assert(sim_trace(*old(ship), old(land)@, *ship, land@, steps as nat));
        }
        steps
    }
}

/// Scheduler catch-up is exact: a fresh scheduler made at time `t0` owes,
/// at time `t0 + k` full steps, exactly `k` integrations — and none while
/// less than one full step has elapsed.
pub proof fn lemma_scheduler_catch_up(t0: u64, k: u64, now: u64)
    requires
        t0 + STEP_MS <= u64::MAX,
    ensures
        now == t0 + k * STEP_MS ==> IntegrationController::steps_due(
            (t0 + STEP_MS) as u64,
            now,
        ) == k,
        now - t0 < STEP_MS ==> IntegrationController::steps_due((t0 + STEP_MS) as u64, now) == 0,
{
    let due = (t0 + STEP_MS) as u64;
    if now == t0 + k * STEP_MS {
        if k == 0 {
            assert(now < due);
        } else {
            assert(now - due == (k - 1) * (STEP_MS as int)) by (nonlinear_arith)
                requires
                    now == t0 + k * STEP_MS,
                    due == t0 + STEP_MS,
                    k >= 1,
            ;
            vstd::arithmetic::div_mod::lemma_div_multiples_vanish(
                k - 1,
                STEP_MS as int,
            );
            assert((now - due) / (STEP_MS as int) == k - 1);
        }
    }
}

/// The whole simulation: one craft, one terrain window, one scheduler.
pub struct World {
    pub ship: Ship,
    pub land: Land,
    pub integration: IntegrationController,
}

impl World {
    /// A well-formed simulation.
    pub open spec fn wf(self) -> bool {
        self.ship.valid() && self.land.wf()
    }

    /// A fresh simulation at wall-clock time `now_ms`: a craft at rest
    /// over flat ground, nothing owed for one step duration.
    pub fn new(now_ms: u64) -> (r: World)
        requires
            now_ms + STEP_MS <= u64::MAX,
        ensures
            r.wf(),
            !r.ship.throttle_left && !r.ship.throttle_bottom && !r.ship.throttle_right,
            r.integration.next_due == now_ms + STEP_MS,
    {
        World { ship: Ship::new(), land: Land::new(), integration: IntegrationController::new(now_ms) }
    }

    /// Forwards one throttle change to the craft.
    pub fn control(&mut self, throttle: Throttle, activate: bool)
        requires
            old(self).wf(),
        ensures
            final(self).wf(),
            forall|t: Throttle|
                final(self).ship.active(t) == if t == throttle {
                    activate
                } else {
                    old(self).ship.active(t)
                },
            final(self).land == old(self).land,
            final(self).integration == old(self).integration,
            final(self).ship.bottom == old(self).ship.bottom,
            final(self).ship.top == old(self).ship.top,
    {
        self.ship.throttle(throttle, activate);
    }

    /// Advances the simulation to wall-clock time `now_ms`; the display
    /// layer then reads the pose, throttles and terrain.  Returns how many
    /// simulation steps ran.
    pub fn redraw(&mut self, now_ms: u64) -> (steps: u64)
        requires
            old(self).wf(),
            now_ms + 2 * STEP_MS <= u64::MAX,
        ensures
            final(self).wf(),
            steps == IntegrationController::steps_due(old(self).integration.next_due, now_ms),
            final(self).integration.next_due == old(self).integration.next_due + steps * STEP_MS,
            sim_trace(
                old(self).ship,
                old(self).land@,
                final(self).ship,
                final(self).land@,
                steps as nat,
            ),
            final(self).ship.throttle_left == old(self).ship.throttle_left,
            final(self).ship.throttle_bottom == old(self).ship.throttle_bottom,
            final(self).ship.throttle_right == old(self).ship.throttle_right,
    {
        self.integration.integrate(&mut self.ship, &mut self.land, now_ms)
    }

    /// The craft's origin, for display.
    pub fn origin(&self) -> (r: Point)
        requires
            self.wf(),
        ensures
            (r.0 as int, r.1 as int) == origin_of(self.ship.state()),
    {
        self.ship.origin()
    }

    /// The craft's direction, for display.
    pub fn direction(&self) -> (r: Vector)
        requires
            self.wf(),
        ensures
            (r.0 as int, r.1 as int) == crate::ship::direction_of(self.ship.state()),
    {
        self.ship.direction()
    }

    /// The active throttle positions, for display.
    pub fn active_throttles(&self) -> (r: Vec<i32>)
        ensures
            r@ == (if self.ship.throttle_left {
                seq![-1i32]
            } else {
                Seq::<i32>::empty()
            }) + (if self.ship.throttle_bottom {
                seq![0i32]
            } else {
                Seq::<i32>::empty()
            }) + (if self.ship.throttle_right {
                seq![1i32]
            } else {
                Seq::<i32>::empty()
            }),
    {
        self.ship.active_throttles()
    }

    /// The terrain segments of the current window, for display.
    pub fn land_segments(&self) -> (r: Vec<Line>)
        requires
            self.wf(),
        ensures
            r@.len() == self.land@.len() - 1,
            forall|i: int|
                0 <= i < r@.len() ==> #[trigger] r@[i] == Line(self.land@[i], self.land@[i + 1]),
    {
        self.land.all()
    }
}

} // verus!

