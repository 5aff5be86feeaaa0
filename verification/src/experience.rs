//! Player progression: experience, levels and stat multipliers.

use vstd::prelude::*;

verus! {

/// Experience awarded by one experience gem.
pub const GEM_VALUE: u32 = 10;

/// Experience needed to reach the second level.
pub const INITIAL_XP_TO_NEXT_LEVEL: u32 = 100;

/// Fixed-point scale for the stat multipliers: values are stored in tenths,
/// so `10` means a factor of one.
pub const MULTIPLIER_ONE: u32 = 10;

/// The single process-wide progression record. The multipliers are
/// fixed-point tenths and never decrease; `orbital_count` counts the weapon
/// volumes orbiting the player.
#[derive(Clone, Copy, Debug, PartialEq, Eq, Structural)]
pub struct PlayerStats {
    pub level: u32,
    pub experience: u32,
    pub xp_to_next_level: u32,
    pub damage_multiplier: u32,
    pub speed_multiplier: u32,
    pub orbital_count: u32,
}

impl PlayerStats {
    /// Well-formedness of the progression record. Leveling is applied
    /// eagerly, so a completed update always leaves `experience` strictly
    /// below the threshold; the threshold only grows from its initial value,
    /// the multipliers never fall below a factor of one, and at least one
    /// weapon volume exists.
    pub open spec fn wf(self) -> bool {
        &&& self.experience < self.xp_to_next_level
        &&& self.xp_to_next_level >= INITIAL_XP_TO_NEXT_LEVEL
        &&& self.damage_multiplier >= MULTIPLIER_ONE
        &&& self.speed_multiplier >= MULTIPLIER_ONE
        &&& self.orbital_count >= 1
    }
}

/// The threshold that replaces `t` after a level-up: one and a half times
/// `t`, rounded half away from zero, stopped at `u32::MAX`.
pub open spec fn spec_next_threshold(t: int) -> int {
    let n = (3 * t + 1) / 2;
    if n <= u32::MAX {
        n
    } else {
        u32::MAX as int
    }
}

/// The stats after gaining `v` experience. If the gain reaches the
/// threshold the player levels up exactly once: the level rises by one
/// (stopped at `u32::MAX`), the threshold is subtracted from the
/// accumulated experience, and the threshold grows by half. A single gain
/// never levels twice, whatever its size.
pub open spec fn spec_gain(s: PlayerStats, v: u32) -> PlayerStats {
    if s.experience + v >= s.xp_to_next_level {
        PlayerStats {
            level: if s.level < u32::MAX { (s.level + 1) as u32 } else { u32::MAX },
            experience: (s.experience + v - s.xp_to_next_level) as u32,
            xp_to_next_level: spec_next_threshold(s.xp_to_next_level as int) as u32,
            ..s
        }
    } else {
        PlayerStats { experience: (s.experience + v) as u32, ..s }
    }
}

impl PlayerStats {
    /// Award experience and apply the leveling rule eagerly: if the new
    /// total reaches the threshold, level up exactly once. Returns whether
    /// a level-up fired. The caller switches the game phase on a level-up.
    pub fn gain_experience(&mut self, value: u32) -> (leveled: bool)
        requires
            old(self).experience < old(self).xp_to_next_level,
        ensures
            *final(self) == spec_gain(*old(self), value),
            leveled == (old(self).experience + value >= old(self).xp_to_next_level),
            old(self).wf() && value <= old(self).xp_to_next_level ==> final(self).wf(),
    {
        let total: u64 = self.experience as u64 + value as u64;
        if total >= self.xp_to_next_level as u64 {
            assert(total - self.xp_to_next_level as u64 <= u32::MAX);
            self.experience = (total - self.xp_to_next_level as u64) as u32;
            if self.level < u32::MAX {
                self.level = self.level + 1;
            }
            let trip: u64 = 3u64 * (self.xp_to_next_level as u64) + 1;
            let half: u64 = trip / 2;
            self.xp_to_next_level = if half <= u32::MAX as u64 {
                half as u32
            } else {
                u32::MAX
            };
            true
        } else {
            self.experience = total as u32;
            false
        }
    }
}

impl Default for PlayerStats {
    /// The session-start record: level 1, no experience, 100 experience to
    /// the next level, both multipliers at a factor of one, one orbital.
    fn default() -> (r: Self)
        ensures
            r == (PlayerStats {
                level: 1,
                experience: 0,
                xp_to_next_level: INITIAL_XP_TO_NEXT_LEVEL,
                damage_multiplier: MULTIPLIER_ONE,
                speed_multiplier: MULTIPLIER_ONE,
                orbital_count: 1,
            }),
            r.wf(),
    {
        PlayerStats {
            level: 1,
            experience: 0,
            xp_to_next_level: INITIAL_XP_TO_NEXT_LEVEL,
            damage_multiplier: MULTIPLIER_ONE,
            speed_multiplier: MULTIPLIER_ONE,
            orbital_count: 1,
        }
    }
}

} // verus!
