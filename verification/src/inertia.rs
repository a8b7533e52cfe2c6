//! A single simulated point mass, integrated Verlet-style: only the
//! current and the previous position are stored, and the velocity is the
//! difference between them.  Forces perturb the previous position, so the
//! implicit velocity stays consistent with arbitrary later position
//! corrections.

use crate::arith::{lemma_tdiv_mag, tdiv};
use crate::geom::{Point, Vector};
use vstd::prelude::*;

verus! {

/// A point mass: current position and the position one step ago.
/// `position - prev` is the implicit velocity times the step duration.
#[derive(Clone, Copy, PartialEq, Eq, Structural, Debug)]
pub struct Inertia {
    pub position: Point,
    pub prev: Point,
}

/// `q` is `p` after one force impulse `f`: the previous position moves
/// back along `f`, scaled by the fixed step duration of a tenth of a
/// time unit.
pub open spec fn forced(p: Inertia, f: Vector, q: Inertia) -> bool {
    &&& q.position == p.position
    &&& q.prev.0 == p.prev.0 - tdiv(f.0 as int, 10)
    &&& q.prev.1 == p.prev.1 - tdiv(f.1 as int, 10)
}

/// `q` is `p` advanced by one integration step: the position moves by
/// the implicit velocity, which itself is unchanged.
pub open spec fn integrated(p: Inertia, q: Inertia) -> bool {
    &&& q.prev == p.position
    &&& q.position.0 == 2 * p.position.0 - p.prev.0
    &&& q.position.1 == 2 * p.position.1 - p.prev.1
}

impl Inertia {
    /// The fixed step duration, in milliseconds: a tenth of a time unit.
    pub fn step() -> (r: u64)
        ensures
            r == 100,
    {
        100
    }

    /// A point at rest: zero implicit velocity.
    pub fn new(position: Point) -> (r: Inertia)
        ensures
            r.position == position,
            r.prev == position,
    {
        let prev = position;
        Inertia { position, prev }
    }

    /// One integration step.  The velocity is unchanged and the position
    /// advances by exactly that velocity.
    pub fn integrate(&mut self)
        requires
            i64::MIN <= 2 * old(self).position.0 - old(self).prev.0 <= i64::MAX,
            i64::MIN <= 2 * old(self).position.1 - old(self).prev.1 <= i64::MAX,
        ensures
            integrated(*old(self), *final(self)),
            final(self).position.0 - final(self).prev.0 == old(self).position.0 - old(
                self,
            ).prev.0,
            final(self).position.1 - final(self).prev.1 == old(self).position.1 - old(
                self,
            ).prev.1,
    {
        let inertia = self.inertia();
        self.prev = self.position;
        self.position = self.position.plus(inertia);
    }

    /// The implicit velocity, times the step duration.
    pub fn inertia(&self) -> (r: Point)
        requires
            i64::MIN <= self.position.0 - self.prev.0 <= i64::MAX,
            i64::MIN <= self.position.1 - self.prev.1 <= i64::MAX,
        ensures
            r.0 == self.position.0 - self.prev.0,
            r.1 == self.position.1 - self.prev.1,
    {
        self.position.minus(self.prev)
    }

    /// An instantaneous acceleration impulse: shifts `prev` backward
    /// along `force`, scaled by the step duration, which raises the
    /// implicit velocity without touching the position.
    pub fn force(&mut self, force: Vector)
        requires
            i64::MIN <= old(self).prev.0 - tdiv(force.0 as int, 10) <= i64::MAX,
            i64::MIN <= old(self).prev.1 - tdiv(force.1 as int, 10) <= i64::MAX,
        ensures
            forced(*old(self), force, *final(self)),
    {
        proof {
            lemma_tdiv_mag(force.0 as int, 10);
            lemma_tdiv_mag(force.1 as int, 10);
        }
        let sx = crate::arith::div_i128(force.0 as i128, 10);
        let sy = crate::arith::div_i128(force.1 as i128, 10);
        self.prev = self.prev.minus(Point(sx as i64, sy as i64));
    }
}

/// A force impulse followed by one integration step changes the implicit
/// velocity by exactly the force scaled by the step duration, and by
/// nothing else.
pub proof fn lemma_force_then_integrate(p: Inertia, f: Vector, q: Inertia, r: Inertia)
    requires
        forced(p, f, q),
        integrated(q, r),
    ensures
        r.position.0 - r.prev.0 == (p.position.0 - p.prev.0) + tdiv(f.0 as int, 10),
        r.position.1 - r.prev.1 == (p.position.1 - p.prev.1) + tdiv(f.1 as int, 10),
{
}

/// Force impulses accumulate linearly: two impulses before a step raise
/// the velocity by the sum of their scaled contributions.
pub proof fn lemma_forces_accumulate(p: Inertia, f1: Vector, f2: Vector, q1: Inertia, q2: Inertia)
    requires
        forced(p, f1, q1),
        forced(q1, f2, q2),
    ensures
        q2.position == p.position,
        q2.prev.0 == p.prev.0 - tdiv(f1.0 as int, 10) - tdiv(f2.0 as int, 10),
        q2.prev.1 == p.prev.1 - tdiv(f1.1 as int, 10) - tdiv(f2.1 as int, 10),
{
}

} // verus!
