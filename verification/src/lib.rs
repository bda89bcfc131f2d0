//! A 2D physics kernel for circular particles ("balls") moving under gravity
//! inside a rectangular arena: explicit Euler integration, damped boundary
//! bounces, all-pairs impulse collision resolution, collision-safe particle
//! placement, and a smoothed-particle-hydrodynamics density estimator.
//!
//! All state is kept in fixed-point arithmetic: positions, velocities and
//! radii are signed integers counting milliunits (one thousandth of a world
//! unit), so every update is exact and free of rounding surprises, and every
//! public function carries a contract that pins the computed values down.

pub mod boundary;
pub mod collisions;
pub mod integrator;
pub mod math;
pub mod particle;
pub mod placement;
pub mod sph;
pub mod world;
