//! Per-frame simulation core of a 2D arcade shooter, in fixed-point integers.
//!
//! Units: lengths are millionths of a world unit, times are milliseconds,
//! velocities are millionths of a world unit per millisecond, health is whole
//! points. A random draw is a `u32` read as the fraction `draw / 2^32` of [0, 1),
//! and a frame reads its draws from fixed slots (`world::SLOT_TANK` and on).
pub mod engine;
pub mod entities;
pub mod frame;
pub mod geometry;
pub mod laws;
pub mod snapshot;
pub mod world;

pub use engine::GameEngine;
pub use entities::{
    BlackHole, Bullet, Enemy, EnemyKind, Explosion, Player, PowerUp, PowerUpKind, UNIT,
};
pub use geometry::{isqrt, overlaps, shift};
