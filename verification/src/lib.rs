//! Core logic of a fixed-formation shooter: a player ship fires projectiles
//! upward at a grid of side-scrolling, descending aliens.
//!
//! All spatial quantities are fixed-point integers: positions are measured in
//! milliunits (one thousandth of a world unit) and time in milliseconds, so
//! that every per-frame computation is exact. The hosting engine (window,
//! sprites, input polling, frame clock) stays outside this crate; it hands the
//! library an elapsed time and the pressed keys each frame and reads back
//! entity positions, visibility and spawn/despawn requests.

pub mod geometry;
pub mod resolution;
pub mod alien;
pub mod player;
pub mod projectile;
pub mod game;
