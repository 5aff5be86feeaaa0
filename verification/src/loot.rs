//! Reward pickups dropped by dying enemies.

use vstd::prelude::*;

use crate::experience::INITIAL_XP_TO_NEXT_LEVEL;
use crate::Position;

verus! {

/// Health restored by one health pack, in tenths of a hit point (25.0).
pub const HEALTH_PACK_VALUE: i64 = 250;

/// A death drops a health pack with probability
/// `LOOT_DROP_NUMER / LOOT_DROP_DENOM` (three in ten), and an experience
/// gem otherwise.
pub const LOOT_DROP_NUMER: u32 = 3;

/// Denominator of the loot-drop probability.
pub const LOOT_DROP_DENOM: u32 = 10;

/// What a pickup grants when the player collects it.
#[derive(Clone, Copy, Debug, PartialEq, Eq, Structural)]
#[allow(inconsistent_fields)]
pub enum PickupKind {
    ExperienceGem { value: u32 },
    HealthPack { value: i64 },
}

/// A collectible reward, spawned at the position where an enemy died. It
/// persists until the player touches it; it never decays.
#[derive(Clone, Copy, Debug, PartialEq, Eq, Structural)]
pub struct Pickup {
    pub id: u64,
    pub kind: PickupKind,
    pub pos: Position,
}

/// The value bounds the engine keeps on live pickups: a gem is worth at
/// most the first level threshold (so collecting it can cross at most one
/// threshold), and a health pack never drains health.
pub open spec fn pickup_value_ok(p: Pickup) -> bool {
    match p.kind {
        PickupKind::ExperienceGem { value } => value <= INITIAL_XP_TO_NEXT_LEVEL,
        PickupKind::HealthPack { value } => value >= 0,
    }
}

} // verus!
