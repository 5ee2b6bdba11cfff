//! A 2D entity-movement simulation core: a symmetric pairwise-relationship
//! registry over eight group identities, packed into one 64-bit word, and a
//! deterministic per-tick kinematic force-accumulation pipeline over
//! fixed-point coordinates.

pub mod allegiance;
pub mod camera;
pub mod fx;
pub mod grid;
pub mod kinematic;
pub mod player;
pub mod unit;
