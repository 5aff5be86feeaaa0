//! Enemy actors and the stat table the spawner draws from.

use vstd::prelude::*;

use crate::Position;

verus! {

/// A live hostile actor in the combat registry.
#[derive(Clone, Copy, Debug, PartialEq, Eq, Structural)]
pub struct Enemy {
    pub id: u64,
    /// Current hit points in tenths; the value may transiently drop to zero
    /// or below before the death resolver removes the actor.
    pub health: i64,
    /// Last known position, read only at the moment of death to place the
    /// reward pickup.
    pub pos: Position,
}

/// The kinds of enemies the external spawner can create.
#[derive(Clone, Copy, Debug, PartialEq, Eq, Structural)]
pub enum EnemyType {
    Grunt,
    Tank,
}

/// One stat-table entry: initial health in tenths of a hit point, and
/// movement speed and body size in tenths of a world unit.
#[derive(Clone, Copy, Debug, PartialEq, Eq, Structural)]
pub struct EnemyStats {
    pub health: i64,
    pub speed: i64,
    pub size: i64,
}

impl EnemyType {
    /// The stat table keyed by enemy type: a grunt has 50.0 health, speed
    /// 250.0 and size 40.0; a tank has 200.0 health, speed 150.0 and size
    /// 75.0.
    pub open spec fn spec_stats(self) -> EnemyStats {
        match self {
            EnemyType::Grunt => EnemyStats { health: 500, speed: 2500, size: 400 },
            EnemyType::Tank => EnemyStats { health: 2000, speed: 1500, size: 750 },
        }
    }

    /// Look an enemy type up in the stat table.
    pub fn get_stats(&self) -> (r: EnemyStats)
        ensures
            r == self.spec_stats(),
    {
        match self {
            EnemyType::Grunt => EnemyStats { health: 500, speed: 2500, size: 400 },
            EnemyType::Tank => EnemyStats { health: 2000, speed: 1500, size: 750 },
        }
    }
}

} // verus!
