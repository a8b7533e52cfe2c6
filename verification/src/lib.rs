//! Core of a two-dimensional lunar-lander simulation.
//!
//! A rigid triangular craft of three point masses falls under constant
//! gravity over procedurally generated, unbounded terrain.  Positions are
//! fixed-point integers (one world unit is `arith::SCALE` fixed-point steps),
//! so every operation of the integrator, the terrain store, the shape
//! solver and the step scheduler has an exact arithmetic meaning that its
//! contract states in full.  Rendering and windowing are outside the
//! library: callers read the ship pose, the active throttles and the
//! terrain segments, and feed wall-clock time in.

pub mod arith;
pub mod attribute;
pub mod geom;
pub mod inertia;
pub mod ship;
pub mod target;
pub mod world;
