//! A verified two-dimensional N-body gravity simulation.
//!
//! All simulation quantities (positions, velocities, masses) are held in
//! fixed-point arithmetic: an `i64` counts thousandths of a unit, so the
//! value `1000` stands for `1.0`. The library provides a registry of bodies
//! (append / remove-last / indexed read access) and an engine that advances
//! the whole registry by one time step: pairwise inverse-square force
//! accumulation, normalize-then-divide-by-mass conversion to acceleration,
//! velocity integration under a speed cap, and position integration.

pub mod body;
pub mod engine;
pub mod laws;
pub mod math;
pub mod sim;
