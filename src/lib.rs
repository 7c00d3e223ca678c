//! Combat simulation core of a tower-defense game: wave scheduling with
//! escalating difficulty, enemy movement along a fixed path, tower targeting,
//! projectile resolution, the economy and the game-phase state machine.
//!
//! All quantities are integers: positions are in thousandths of a world unit,
//! speeds in thousandths of a unit per second, and durations in milliseconds.
use vstd::prelude::*;

pub mod archetypes;
pub mod combat;
pub mod game;
pub mod orcs;
pub mod path;
pub mod timer;
pub mod tower;
pub mod wave;
