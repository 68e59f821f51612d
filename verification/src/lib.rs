//! Core of a high-precision orbital / rigid-body simulation.
//!
//! Positions are exact 64-bit integers in millimeters; orientations are
//! quaternions with components scaled by `SCALE` (1e-9 resolution); angles are
//! in nano-radians; time is in milliseconds.  All arithmetic is integer
//! arithmetic with explicit round-to-nearest divisions, so every operation has
//! an exact mathematical description that its contract states.

pub mod num;
pub mod trig;
pub mod vec3;
pub mod quat;
pub mod mat3;
pub mod precision;
pub mod orrery;
pub mod physics;
pub mod docking;
