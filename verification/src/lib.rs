//! A 2D particle simulation over fixed-point coordinates.
//!
//! Particles move under a pluggable force strategy (a uniform field, a
//! coherent-noise field, or pairwise Newtonian gravity), are integrated each
//! tick, and are kept inside a bounding rectangle by a selectable boundary
//! policy. All quantities are fixed-point integers: a value `v` stands for
//! the real number `v / SCALE`.

pub mod bounds;
pub mod forces;
pub mod fp;
pub mod gravity;
pub mod noise;
pub mod par;
pub mod particle;
pub mod particles;
pub mod rng;
pub mod vec2;
