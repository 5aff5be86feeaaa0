//! Combat and progression engine for an arena-survival game.
//!
//! Waves of enemies converge on a single player; contact events between
//! orbiting weapon volumes and enemies resolve into damage, deaths drop
//! collectible pickups, collected experience drives a level/upgrade
//! progression, and committed upgrades permanently strengthen the player.
//!
//! All health and distance quantities are fixed-point integers in tenths of
//! a unit (a value of `10` means `1.0`), so that every rule of the engine is
//! exact integer arithmetic.

use vstd::prelude::*;

pub mod enemy;
pub mod experience;
pub mod laws;
pub mod loot;
pub mod math;
pub mod rng;
pub mod upgrade;
pub mod world;

verus! {

/// The global phase of the game: exactly one of the two is active.
/// `Gameplay` is the initial phase; a level-up switches to `LevelUp`
/// (the upgrade-selection screen), and committing an upgrade switches back.
#[derive(Clone, Copy, Debug, PartialEq, Eq, Structural)]
pub enum GameState {
    Gameplay,
    LevelUp,
}

/// A two-dimensional position, in tenths of a world unit.
/// The engine reads an enemy's position only at the moment of death,
/// to place the reward pickup it drops.
#[derive(Clone, Copy, Debug, PartialEq, Eq, Structural)]
pub struct Position {
    pub x: i64,
    pub y: i64,
}

} // verus!
