//! Simulation core of an arcade space shooter: an id-keyed entity store,
//! archetype factories, fixed-point kinematics with screen wrap-around,
//! broad-phase collision detection and the per-frame rules of a session.
//!
//! All quantities are integers: lengths in micro-pixels, times in
//! microseconds, headings in whole degrees.

pub mod geometry;
pub mod entity;
mod random;
pub mod collisions;
pub mod rules;
pub mod asteroids;
