//! The combat registry and the resolvers that drive one simulation tick.
//!
//! A [`World`] holds the single player, the live enemies, the orbiting
//! weapon volumes, the uncollected pickups, the progression record and the
//! game phase. The resolvers consume batches of contact events delivered by
//! an external physics layer; within one tick the damage resolver runs
//! before the death resolver, and every system sees a consistent snapshot
//! of the stats and the phase.

use vstd::prelude::*;

use crate::enemy::{Enemy, EnemyType};
use crate::experience::PlayerStats;
use crate::loot::{pickup_value_ok, Pickup, PickupKind};
use crate::upgrade::Upgrade;
use crate::GameState;
use crate::Position;

verus! {

/// Hit points the player starts with, in tenths (100.0).
pub const PLAYER_START_HEALTH: i64 = 1000;

/// One "two volumes began touching" notification from the physics layer,
/// already deduplicated per physical contact start. The engine classifies
/// both sides itself, so the order of `a` and `b` does not matter.
#[derive(Clone, Copy, Debug, PartialEq, Eq, Structural)]
pub struct ContactEvent {
    pub a: u64,
    pub b: u64,
}

/// The mathematical value of a [`World`]: the same data with the vectors
/// abstracted to sequences. All resolver contracts are stated over it.
#[verifier::ext_equal]
pub struct WorldView {
    pub player_id: u64,
    pub player_health: i64,
    pub enemies: Seq<Enemy>,
    pub weapons: Seq<u64>,
    pub pickups: Seq<Pickup>,
    pub stats: PlayerStats,
    pub phase: GameState,
    pub next_id: u64,
}

/// The combat registry: every entity the engine owns, keyed by numeric ids
/// that a physics layer can echo back in contact events.
pub struct World {
    pub player_id: u64,
    /// Player hit points in tenths; health packs can push it above the
    /// starting value without bound.
    pub player_health: i64,
    pub enemies: Vec<Enemy>,
    /// Ids of the weapon volumes orbiting the player.
    pub weapons: Vec<u64>,
    pub pickups: Vec<Pickup>,
    pub stats: PlayerStats,
    pub phase: GameState,
    /// Id allocator: every id ever handed out is below this bound.
    pub next_id: u64,
}

impl View for World {
    type V = WorldView;

    open spec fn view(&self) -> WorldView {
        WorldView {
            player_id: self.player_id,
            player_health: self.player_health,
            enemies: self.enemies@,
            weapons: self.weapons@,
            pickups: self.pickups@,
            stats: self.stats,
            phase: self.phase,
            next_id: self.next_id,
        }
    }
}

impl WorldView {
    /// Live pickups carry distinct ids, none of them the player's: a
    /// collected pickup is gone for good, and a later contact event naming
    /// its id can no longer match anything.
    pub open spec fn pickup_ids_ok(self) -> bool {
        &&& forall|i: int, j: int|
            0 <= i < j < self.pickups.len() ==> self.pickups[i].id != self.pickups[j].id
        &&& forall|i: int| 0 <= i < self.pickups.len() ==> self.pickups[i].id != self.player_id
    }

    /// Every id in the registry was handed out by the allocator, so
    /// `next_id` is always fresh.
    pub open spec fn ids_below_next(self) -> bool {
        &&& self.player_id < self.next_id
        &&& forall|i: int| 0 <= i < self.enemies.len() ==> self.enemies[i].id < self.next_id
        &&& forall|i: int| 0 <= i < self.weapons.len() ==> self.weapons[i] < self.next_id
        &&& forall|i: int| 0 <= i < self.pickups.len() ==> self.pickups[i].id < self.next_id
    }

    /// Well-formedness of the whole registry: the progression record holds
    /// its invariants, exactly `orbital_count` weapon volumes exist, live
    /// pickups keep their value bounds, and ids are consistent.
    pub open spec fn wf(self) -> bool {
        &&& self.stats.wf()
        &&& self.weapons.len() == self.stats.orbital_count as int
        &&& forall|i: int| 0 <= i < self.pickups.len() ==> pickup_value_ok(#[trigger] self.pickups[i])
        &&& self.pickup_ids_ok()
        &&& self.ids_below_next()
    }
}

impl World {
    /// Well-formedness, stated over the view.
    pub open spec fn wf(&self) -> bool {
        self@.wf()
    }

    /// Create the session-start world: one live player with full health and
    /// one orbiting weapon volume, default stats, the `Gameplay` phase, and
    /// no enemies or pickups.
    pub fn new() -> (w: World)
        ensures
            w.wf(),
            w@ == (WorldView {
                player_id: 0,
                player_health: PLAYER_START_HEALTH,
                enemies: Seq::<Enemy>::empty(),
                weapons: seq![1u64],
                pickups: Seq::<Pickup>::empty(),
                stats: PlayerStats {
                    level: 1,
                    experience: 0,
                    xp_to_next_level: crate::experience::INITIAL_XP_TO_NEXT_LEVEL,
                    damage_multiplier: crate::experience::MULTIPLIER_ONE,
                    speed_multiplier: crate::experience::MULTIPLIER_ONE,
                    orbital_count: 1,
                },
                phase: GameState::Gameplay,
                next_id: 2,
            }),
    {
        let mut weapons: Vec<u64> = Vec::new();
        weapons.push(1u64);
        let w = World {
            player_id: 0,
            player_health: PLAYER_START_HEALTH,
            enemies: Vec::new(),
            weapons,
            pickups: Vec::new(),
            stats: Default::default(),
            phase: GameState::Gameplay,
            next_id: 2,
        };
        proof {
            assert(w@.weapons =~= seq![1u64]);
            assert(w@.enemies =~= Seq::<Enemy>::empty());
            assert(w@.pickups =~= Seq::<Pickup>::empty());
            assert(w@ =~= (WorldView {
                player_id: 0,
                player_health: PLAYER_START_HEALTH,
                enemies: Seq::<Enemy>::empty(),
                weapons: seq![1u64],
                pickups: Seq::<Pickup>::empty(),
                stats: PlayerStats {
                    level: 1,
                    experience: 0,
                    xp_to_next_level: crate::experience::INITIAL_XP_TO_NEXT_LEVEL,
                    damage_multiplier: crate::experience::MULTIPLIER_ONE,
                    speed_multiplier: crate::experience::MULTIPLIER_ONE,
                    orbital_count: 1,
                },
                phase: GameState::Gameplay,
                next_id: 2,
            }));
        }
        w
    }

    /// Register a freshly spawned enemy of the given type at `pos`, with
    /// its initial health taken from the stat table. Returns the enemy's
    /// id. The external spawner decides when and where to call this.
    pub fn spawn_enemy(&mut self, etype: EnemyType, pos: Position) -> (id: u64)
        requires
            old(self).wf(),
            old(self).next_id < u64::MAX,
        ensures
            final(self).wf(),
            id == old(self).next_id,
            final(self)@ == (WorldView {
                enemies: old(self)@.enemies.push(
                    Enemy { id: old(self).next_id, health: etype.spec_stats().health, pos },
                ),
                next_id: (old(self).next_id + 1) as u64,
                ..old(self)@
            }),
    {
        let id = self.next_id;
        let stats = etype.get_stats();
        self.enemies.push(Enemy { id, health: stats.health, pos });
        self.next_id = self.next_id + 1;
        id
    }

    /// Place one experience gem, worth the standard gem value, at `pos`.
    /// Returns the pickup's id. The death resolver drops gems itself; this
    /// entry point lets a collaborator place one directly.
    pub fn spawn_experience_gem(&mut self, pos: Position) -> (id: u64)
        requires
            old(self).wf(),
            old(self).next_id < u64::MAX,
        ensures
            final(self).wf(),
            id == old(self).next_id,
            final(self)@ == (WorldView {
                pickups: old(self)@.pickups.push(
                    (Pickup {
                        id: old(self).next_id,
                        kind: PickupKind::ExperienceGem { value: crate::experience::GEM_VALUE },
                        pos,
                    }),
                ),
                next_id: (old(self).next_id + 1) as u64,
                ..old(self)@
            }),
    {
        let id = self.next_id;
        self.pickups.push(Pickup {
            id,
            kind: PickupKind::ExperienceGem { value: crate::experience::GEM_VALUE },
            pos,
        });
        self.next_id = self.next_id + 1;
        id
    }

    /// Place one loot drop — a health pack, the only loot kind — at `pos`.
    /// Returns the pickup's id.
    pub fn spawn_loot_drop(&mut self, pos: Position) -> (id: u64)
        requires
            old(self).wf(),
            old(self).next_id < u64::MAX,
        ensures
            final(self).wf(),
            id == old(self).next_id,
            final(self)@ == (WorldView {
                pickups: old(self)@.pickups.push(
                    (Pickup {
                        id: old(self).next_id,
                        kind: PickupKind::HealthPack { value: crate::loot::HEALTH_PACK_VALUE },
                        pos,
                    }),
                ),
                next_id: (old(self).next_id + 1) as u64,
                ..old(self)@
            }),
    {
        let id = self.next_id;
        self.pickups.push(Pickup {
            id,
            kind: PickupKind::HealthPack { value: crate::loot::HEALTH_PACK_VALUE },
            pos,
        });
        self.next_id = self.next_id + 1;
        id
    }

    /// Instantiate one new weapon volume attached to the player and count
    /// it in `orbital_count`. Returns the new volume's id.
    pub fn spawn_orbital_weapon(&mut self) -> (id: u64)
        requires
            old(self).wf(),
            old(self).next_id < u64::MAX,
            old(self).stats.orbital_count < u32::MAX,
        ensures
            final(self).wf(),
            id == old(self).next_id,
            final(self)@ == (WorldView {
                weapons: old(self)@.weapons.push(old(self).next_id),
                stats: (PlayerStats {
                    orbital_count: (old(self).stats.orbital_count + 1) as u32,
                    ..old(self).stats
                }),
                next_id: (old(self).next_id + 1) as u64,
                ..old(self)@
            }),
    {
        let id = self.next_id;
        self.weapons.push(id);
        self.stats.orbital_count = self.stats.orbital_count + 1;
        self.next_id = self.next_id + 1;
        id
    }
}

// ---------------------------------------------------------------------------
// Id lookup
// ---------------------------------------------------------------------------

/// Index of the first element of `ids` equal to `id`, or `-1` if none.
pub open spec fn find_id(ids: Seq<u64>, id: u64) -> int
    decreases ids.len(),
{
    if ids.len() == 0 {
        -1
    } else if ids[0] == id {
        0
    } else {
        let r = find_id(ids.drop_first(), id);
        if r == -1 {
            -1
        } else {
            r + 1
        }
    }
}

/// `find_id` returns the first matching index when one exists and `-1`
/// exactly when no element matches.
pub proof fn lemma_find_id(ids: Seq<u64>, id: u64)
    ensures
        find_id(ids, id) == -1 ==> forall|k: int| 0 <= k < ids.len() ==> ids[k] != id,
        find_id(ids, id) != -1 ==> {
            &&& 0 <= find_id(ids, id) < ids.len()
            &&& ids[find_id(ids, id)] == id
            &&& forall|k: int| 0 <= k < find_id(ids, id) ==> ids[k] != id
        },
    decreases ids.len(),
{
    if ids.len() > 0 && ids[0] != id {
        let rest = ids.drop_first();
        lemma_find_id(rest, id);
        assert(forall|k: int| 0 <= k < rest.len() ==> rest[k] == ids[k + 1]);
        let r = find_id(rest, id);
        if r == -1 {
            assert forall|k: int| 0 <= k < ids.len() implies ids[k] != id by {
                if k > 0 {
                    assert(rest[k - 1] == ids[k]);
                }
            }
        } else {
            assert(ids[r + 1] == rest[r]);
            assert forall|k: int| 0 <= k < r + 1 implies ids[k] != id by {
                if k > 0 {
                    assert(rest[k - 1] == ids[k]);
                }
            }
        }
    }
}

impl WorldView {
    /// The enemy ids, in roster order.
    pub open spec fn enemy_ids(self) -> Seq<u64> {
        self.enemies.map(|i: int, e: Enemy| e.id)
    }

    /// The live pickup ids, in spawn order.
    pub open spec fn pickup_ids(self) -> Seq<u64> {
        self.pickups.map(|i: int, p: Pickup| p.id)
    }
}

impl World {
    /// Whether `id` names one of the orbiting weapon volumes.
    fn is_weapon(&self, id: u64) -> (r: bool)
        ensures
            r == self@.weapons.contains(id),
    {
        let mut i: usize = 0;
        while i < self.weapons.len()
            invariant
                i <= self.weapons@.len(),
                forall|k: int| 0 <= k < i ==> self.weapons@[k] != id,
            decreases self.weapons@.len() - i,
        {
            if self.weapons[i] == id {
                return true;
            }
            i = i + 1;
        }
        false
    }

    /// Index of the first enemy with the given id, if any.
    fn find_enemy(&self, id: u64) -> (r: Option<usize>)
        ensures
            match r {
                Some(i) => i < self.enemies@.len() && find_id(self@.enemy_ids(), id) == i,
                None => find_id(self@.enemy_ids(), id) == -1,
            },
    {
        proof {
            lemma_find_id(self@.enemy_ids(), id);
        }
        let mut i: usize = 0;
        while i < self.enemies.len()
            invariant
                i <= self.enemies@.len(),
                forall|k: int| 0 <= k < i ==> self.enemies@[k].id != id,
            decreases self.enemies@.len() - i,
        {
            if self.enemies[i].id == id {
                proof {
                    lemma_find_id(self@.enemy_ids(), id);
                    assert(self@.enemy_ids()[i as int] == id);
                }
                return Some(i);
            }
            i = i + 1;
        }
        proof {
            lemma_find_id(self@.enemy_ids(), id);
            assert(forall|k: int|
                0 <= k < self@.enemy_ids().len() ==> self@.enemy_ids()[k] == self.enemies@[k].id);
        }
        None
    }

    /// Index of the first pickup with the given id, if any.
    fn find_pickup(&self, id: u64) -> (r: Option<usize>)
        ensures
            match r {
                Some(i) => i < self.pickups@.len() && find_id(self@.pickup_ids(), id) == i,
                None => find_id(self@.pickup_ids(), id) == -1,
            },
    {
        let mut i: usize = 0;
        while i < self.pickups.len()
            invariant
                i <= self.pickups@.len(),
                forall|k: int| 0 <= k < i ==> self.pickups@[k].id != id,
            decreases self.pickups@.len() - i,
        {
            if self.pickups[i].id == id {
                proof {
                    lemma_find_id(self@.pickup_ids(), id);
                    assert(self@.pickup_ids()[i as int] == id);
                }
                return Some(i);
            }
            i = i + 1;
        }
        proof {
            lemma_find_id(self@.pickup_ids(), id);
            assert(forall|k: int|
                0 <= k < self@.pickup_ids().len() ==> self@.pickup_ids()[k] == self.pickups@[k].id);
        }
        None
    }
}

// ---------------------------------------------------------------------------
// Damage Resolver
// ---------------------------------------------------------------------------

/// Base damage of one projectile contact, in tenths of a hit point (10.0).
pub const BASE_PROJECTILE_DAMAGE: i64 = 100;

/// Damage dealt by one weapon contact, in tenths of a hit point: the base
/// projectile damage scaled by the current damage multiplier.
pub open spec fn spec_damage_per_hit(stats: PlayerStats) -> int {
    BASE_PROJECTILE_DAMAGE * stats.damage_multiplier / (crate::experience::MULTIPLIER_ONE as int)
}

/// The roster index of the enemy a contact event damages: one side must be
/// a weapon volume and the other an enemy, in either order. `-1` when the
/// event pairs anything else; such events are silently skipped.
pub open spec fn damage_target(w: WorldView, ev: ContactEvent) -> int {
    if w.weapons.contains(ev.a) && find_id(w.enemy_ids(), ev.b) != -1 {
        find_id(w.enemy_ids(), ev.b)
    } else if w.weapons.contains(ev.b) && find_id(w.enemy_ids(), ev.a) != -1 {
        find_id(w.enemy_ids(), ev.a)
    } else {
        -1
    }
}

/// One contact event applied to the world: the matched enemy loses `d`
/// tenths of a hit point (saturating); everything else is unchanged.
pub open spec fn apply_damage_event(w: WorldView, d: int, ev: ContactEvent) -> WorldView {
    let t = damage_target(w, ev);
    if t == -1 {
        w
    } else {
        WorldView {
            enemies: w.enemies.update(
                t,
                (Enemy {
                    health: crate::math::clamped_sub(w.enemies[t].health as int, d) as i64,
                    ..w.enemies[t]
                }),
            ),
            ..w
        }
    }
}

/// The world after a whole batch of contact events, applied in order. The
/// damage per hit `d` is fixed for the batch: every system sees one stats
/// snapshot per tick.
pub open spec fn damage_fold(w: WorldView, d: int, evs: Seq<ContactEvent>) -> WorldView
    decreases evs.len(),
{
    if evs.len() == 0 {
        w
    } else {
        apply_damage_event(damage_fold(w, d, evs.drop_last()), d, evs.last())
    }
}

/// A damage batch only rewrites enemy health: ids, roster length and every
/// other component of the world are untouched.
pub proof fn lemma_damage_fold_frame(w: WorldView, d: int, evs: Seq<ContactEvent>)
    ensures
        damage_fold(w, d, evs) == (WorldView { enemies: damage_fold(w, d, evs).enemies, ..w }),
        damage_fold(w, d, evs).enemies.len() == w.enemies.len(),
        forall|k: int|
            0 <= k < w.enemies.len()
                ==> (#[trigger] damage_fold(w, d, evs).enemies[k]).id == w.enemies[k].id
                && damage_fold(w, d, evs).enemies[k].pos == w.enemies[k].pos,
    decreases evs.len(),
{
    if evs.len() > 0 {
        lemma_damage_fold_frame(w, d, evs.drop_last());
        let wmid = damage_fold(w, d, evs.drop_last());
        let wlast = damage_fold(w, d, evs);
        let ev = evs.last();
        lemma_find_id(wmid.enemy_ids(), ev.a);
        lemma_find_id(wmid.enemy_ids(), ev.b);
        let t = damage_target(wmid, ev);
        if t == -1 {
            assert(wlast == wmid);
        } else {
            assert(0 <= t < wmid.enemies.len());
            assert forall|k: int|
                0 <= k < w.enemies.len() implies (#[trigger] wlast.enemies[k]).id
                == w.enemies[k].id && wlast.enemies[k].pos == w.enemies[k].pos by {
                if k != t {
                    assert(wlast.enemies[k] == wmid.enemies[k]);
                } else {
                    assert(wlast.enemies[k].id == wmid.enemies[t].id);
                }
            }
            assert(wlast =~= (WorldView { enemies: wlast.enemies, ..w }));
        }
    }
}

/// A damage batch preserves well-formedness.
pub proof fn lemma_damage_fold_wf(w: WorldView, d: int, evs: Seq<ContactEvent>)
    requires
        w.wf(),
    ensures
        damage_fold(w, d, evs).wf(),
{
    lemma_damage_fold_frame(w, d, evs);
}

impl World {
    /// Damage Resolver: for every contact event pairing a weapon volume
    /// with an enemy, in either order, reduce that enemy's health by one
    /// hit: the base projectile damage of 10.0 scaled by the damage
    /// multiplier. Damage is additive per event, not capped per tick, and
    /// never removes an enemy: an enemy driven to zero or below stays in
    /// the roster until the death resolver runs after the batch.
    pub fn resolve_damage(&mut self, events: &Vec<ContactEvent>)
        requires
            old(self).wf(),
        ensures
            final(self).wf(),
            final(self)@ == damage_fold(
                old(self)@,
                spec_damage_per_hit(old(self).stats),
                events@,
            ),
            final(self).enemies@.len() == old(self).enemies@.len(),
            final(self)@ == (WorldView { enemies: final(self)@.enemies, ..old(self)@ }),
    {
        let ghost w0 = self@;
        let ghost d = spec_damage_per_hit(old(self).stats);
        let dmg: i64 = BASE_PROJECTILE_DAMAGE * (self.stats.damage_multiplier as i64)
            / (crate::experience::MULTIPLIER_ONE as i64);
        assert(dmg == d && d >= 0);
        let mut i: usize = 0;
        while i < events.len()
            invariant
                i <= events@.len(),
                dmg == d,
                d >= 0,
                self@ == damage_fold(w0, d, events@.take(i as int)),
            decreases events@.len() - i,
        {
            proof {
                assert(events@.take(i as int + 1).drop_last() =~= events@.take(i as int));
                assert(events@.take(i as int + 1).last() == events@[i as int]);
            }
            let ghost wmid = self@;
            let ev = events[i];
            let target: Option<usize> = if self.is_weapon(ev.a) {
                match self.find_enemy(ev.b) {
                    Some(t) => Some(t),
                    None => {
                        if self.is_weapon(ev.b) {
                            self.find_enemy(ev.a)
                        } else {
                            None
                        }
                    },
                }
            } else if self.is_weapon(ev.b) {
                self.find_enemy(ev.a)
            } else {
                None
            };
            match target {
                None => {
                    proof {
                        assert(damage_target(wmid, ev) == -1);
                        assert(self@ =~= apply_damage_event(wmid, d, ev));
                    }
                },
                Some(t) => {
                    proof {
                        assert(damage_target(wmid, ev) == t);
                    }
                    let e = self.enemies[t];
                    let nh = crate::math::sat_sub_i64(e.health, dmg);
                    self.enemies.set(t, Enemy { health: nh, ..e });
                    proof {
                        assert(self@ =~= apply_damage_event(wmid, d, ev));
                    }
                },
            }
            i = i + 1;
        }
        proof {
            assert(events@.take(events@.len() as int) =~= events@);
            lemma_damage_fold_wf(w0, d, events@);
            lemma_damage_fold_frame(w0, d, events@);
        }
    }
}

// ---------------------------------------------------------------------------
// Death & Reward Resolver
// ---------------------------------------------------------------------------

/// The enemies that survive a death pass: those with health above zero, in
/// roster order.
pub open spec fn alive_enemies(es: Seq<Enemy>) -> Seq<Enemy>
    decreases es.len(),
{
    if es.len() == 0 {
        Seq::empty()
    } else {
        let rest = alive_enemies(es.drop_last());
        if es.last().health > 0 {
            rest.push(es.last())
        } else {
            rest
        }
    }
}

/// The enemies a death pass removes: those with health at or below zero,
/// in roster order.
pub open spec fn dead_enemies(es: Seq<Enemy>) -> Seq<Enemy>
    decreases es.len(),
{
    if es.len() == 0 {
        Seq::empty()
    } else {
        let rest = dead_enemies(es.drop_last());
        if es.last().health <= 0 {
            rest.push(es.last())
        } else {
            rest
        }
    }
}

/// The reward a death drops, decided by one random draw: a health pack on
/// a loot roll (probability three in ten), an experience gem otherwise.
pub open spec fn spec_pickup_kind(drop_roll: bool) -> PickupKind {
    if drop_roll {
        PickupKind::HealthPack { value: crate::loot::HEALTH_PACK_VALUE }
    } else {
        PickupKind::ExperienceGem { value: crate::experience::GEM_VALUE }
    }
}

/// The pickups spawned for the dead enemies, one per death: the `j`-th
/// dead enemy drops a pickup with the fresh id `base + j`, of the kind its
/// loot roll `rolls[j]` decided, at the enemy's last position.
pub open spec fn spawned_pickups(deads: Seq<Enemy>, rolls: Seq<bool>, base: int) -> Seq<Pickup>
    decreases deads.len(),
{
    if deads.len() == 0 {
        Seq::empty()
    } else {
        spawned_pickups(deads.drop_last(), rolls, base).push(
            (Pickup {
                id: (base + deads.len() - 1) as u64,
                kind: spec_pickup_kind(rolls[deads.len() - 1]),
                pos: deads.last().pos,
            }),
        )
    }
}

/// The world after one death pass with the given loot rolls: the dead
/// enemies are removed, each has dropped exactly one pickup — never zero,
/// never two — and the id allocator has advanced past the new pickups.
pub open spec fn spec_resolve_deaths(w: WorldView, rolls: Seq<bool>) -> WorldView {
    WorldView {
        enemies: alive_enemies(w.enemies),
        pickups: w.pickups + spawned_pickups(dead_enemies(w.enemies), rolls, w.next_id as int),
        next_id: (w.next_id + dead_enemies(w.enemies).len()) as u64,
        ..w
    }
}

/// Every spawned pickup, element by element.
pub proof fn lemma_spawned_pickups(deads: Seq<Enemy>, rolls: Seq<bool>, base: int)
    ensures
        spawned_pickups(deads, rolls, base).len() == deads.len(),
        forall|j: int|
            0 <= j < deads.len() ==> #[trigger] spawned_pickups(deads, rolls, base)[j]
                == (Pickup {
                id: (base + j) as u64,
                kind: spec_pickup_kind(rolls[j]),
                pos: deads[j].pos,
            }),
    decreases deads.len(),
{
    if deads.len() > 0 {
        lemma_spawned_pickups(deads.drop_last(), rolls, base);
        assert(forall|j: int|
            0 <= j < deads.len() - 1 ==> deads.drop_last()[j] == deads[j]);
    }
}

/// Every enemy is on exactly one side of a death pass, so a roster never
/// holds more dead enemies than members.
pub proof fn lemma_dead_alive_count(es: Seq<Enemy>)
    ensures
        dead_enemies(es).len() + alive_enemies(es).len() == es.len(),
    decreases es.len(),
{
    if es.len() > 0 {
        lemma_dead_alive_count(es.drop_last());
    }
}

/// A roster prefix never holds more dead enemies than the whole roster,
/// and strictly fewer if the next member is dead.
pub proof fn lemma_dead_prefix_bound(es: Seq<Enemy>, i: int)
    requires
        0 <= i <= es.len(),
    ensures
        dead_enemies(es.take(i)).len() <= dead_enemies(es).len(),
        i < es.len() && es[i].health <= 0 ==> dead_enemies(es.take(i)).len() + 1
            <= dead_enemies(es).len(),
    decreases es.len() - i,
{
    if i == es.len() {
        assert(es.take(i) =~= es);
    } else {
        lemma_dead_prefix_bound(es, i + 1);
        assert(es.take(i + 1).drop_last() =~= es.take(i));
        assert(es.take(i + 1).last() == es[i]);
    }
}

/// An id bound on a roster carries over to its surviving side.
pub proof fn lemma_alive_ids_bound(es: Seq<Enemy>, b: u64)
    requires
        forall|i: int| 0 <= i < es.len() ==> es[i].id < b,
    ensures
        forall|j: int|
            0 <= j < alive_enemies(es).len() ==> (#[trigger] alive_enemies(es)[j]).id < b,
    decreases es.len(),
{
    if es.len() > 0 {
        assert(forall|i: int| 0 <= i < es.drop_last().len() ==> es.drop_last()[i] == es[i]);
        lemma_alive_ids_bound(es.drop_last(), b);
        let rest = alive_enemies(es.drop_last());
        assert forall|j: int|
            0 <= j < alive_enemies(es).len() implies (#[trigger] alive_enemies(es)[j]).id
            < b by {
            if j < rest.len() {
                assert(alive_enemies(es)[j] == rest[j]);
            } else {
                assert(alive_enemies(es)[j] == es.last());
            }
        }
    }
}

impl World {
    /// Death & Reward Resolver with the loot rolls given explicitly: runs
    /// after the Damage Resolver in the same tick. Every enemy with health
    /// at or below zero is removed, and each drops exactly one pickup at
    /// its last position — a health pack on a loot roll, an experience gem
    /// otherwise — under a fresh id. Spawning is unconditional once death
    /// is detected; there is no retry or failure path.
    pub fn resolve_deaths_with(&mut self, rolls: &Vec<bool>)
        requires
            old(self).wf(),
            rolls@.len() == dead_enemies(old(self)@.enemies).len(),
            old(self).next_id + dead_enemies(old(self)@.enemies).len() <= u64::MAX,
        ensures
            final(self).wf(),
            final(self)@ == spec_resolve_deaths(old(self)@, rolls@),
    {
        let ghost w0 = self@;
        let ghost base = w0.next_id as int;
        let mut survivors: Vec<Enemy> = Vec::new();
        let mut k: usize = 0;
        let mut i: usize = 0;
        proof {
            assert(w0.enemies.take(0) =~= Seq::<Enemy>::empty());
            assert(survivors@ =~= alive_enemies(w0.enemies.take(0)));
            assert(self.pickups@ =~= w0.pickups + spawned_pickups(
                dead_enemies(w0.enemies.take(0)),
                rolls@,
                base,
            ));
        }
        while i < self.enemies.len()
            invariant
                self.enemies@ == w0.enemies,
                self.weapons@ == w0.weapons,
                self.stats == w0.stats,
                self.phase == w0.phase,
                self.player_id == w0.player_id,
                self.player_health == w0.player_health,
                i <= w0.enemies.len(),
                k <= i,
                k as int == dead_enemies(w0.enemies.take(i as int)).len(),
                survivors@ == alive_enemies(w0.enemies.take(i as int)),
                self.pickups@ == w0.pickups + spawned_pickups(
                    dead_enemies(w0.enemies.take(i as int)),
                    rolls@,
                    base,
                ),
                self.next_id as int == base + k,
                rolls@.len() == dead_enemies(w0.enemies).len(),
                base + dead_enemies(w0.enemies).len() <= u64::MAX,
            decreases w0.enemies.len() - i,
        {
            proof {
                assert(w0.enemies.take(i as int + 1).drop_last() =~= w0.enemies.take(i as int));
                assert(w0.enemies.take(i as int + 1).last() == w0.enemies[i as int]);
            }
            let e = self.enemies[i];
            if e.health > 0 {
                survivors.push(e);
            } else {
                proof {
                    lemma_dead_prefix_bound(w0.enemies, i as int);
                }
                let drop_roll = rolls[k];
                let kind = if drop_roll {
                    PickupKind::HealthPack { value: crate::loot::HEALTH_PACK_VALUE }
                } else {
                    PickupKind::ExperienceGem { value: crate::experience::GEM_VALUE }
                };
                self.pickups.push(Pickup { id: self.next_id, kind, pos: e.pos });
                self.next_id = self.next_id + 1;
                k = k + 1;
                proof {
                    let dl = dead_enemies(w0.enemies.take(i as int));
                    let dl2 = dead_enemies(w0.enemies.take(i as int + 1));
                    assert(dl2 == dl.push(w0.enemies[i as int]));
                    assert(dl2.drop_last() =~= dl);
                    assert(self.pickups@ =~= w0.pickups + spawned_pickups(dl2, rolls@, base));
                }
            }
            i = i + 1;
        }
        self.enemies = survivors;
        proof {
            assert(w0.enemies.take(w0.enemies.len() as int) =~= w0.enemies);
            assert(self@ =~= spec_resolve_deaths(w0, rolls@));
            lemma_spawned_pickups(dead_enemies(w0.enemies), rolls@, base);
            lemma_alive_ids_bound(w0.enemies, w0.next_id);
            let nv = self@;
            assert forall|t: int|
                0 <= t < nv.pickups.len() implies pickup_value_ok(#[trigger] nv.pickups[t]) by {
                if t >= w0.pickups.len() {
                    assert(nv.pickups[t] == spawned_pickups(
                        dead_enemies(w0.enemies),
                        rolls@,
                        base,
                    )[t - w0.pickups.len()]);
                }
            }
            assert(nv.pickup_ids_ok()) by {
                assert(forall|t: int|
                    w0.pickups.len() <= t < nv.pickups.len()
                        ==> (#[trigger] nv.pickups[t]).id == base + (t - w0.pickups.len()));
            }
            assert(nv.ids_below_next());
        }
    }

    /// Death & Reward Resolver: remove every enemy with health at or below
    /// zero and spawn exactly one reward pickup per death at the enemy's
    /// last position, drawing each loot roll from the engine's randomness
    /// source: a health pack with probability three in ten, an experience
    /// gem otherwise.
    pub fn resolve_deaths(&mut self)
        requires
            old(self).wf(),
            old(self).next_id + old(self)@.enemies.len() <= u64::MAX,
        ensures
            final(self).wf(),
            exists|rolls: Seq<bool>|
                rolls.len() == dead_enemies(old(self)@.enemies).len() && final(self)@
                    == spec_resolve_deaths(old(self)@, rolls),
            final(self).enemies@ == alive_enemies(old(self)@.enemies),
            final(self).pickups@.len() == old(self).pickups@.len() + dead_enemies(
                old(self)@.enemies,
            ).len(),
    {
        let ghost w0 = self@;
        proof {
            lemma_dead_alive_count(w0.enemies);
            assert(w0.enemies.take(0) =~= Seq::<Enemy>::empty());
        }
        let mut n: usize = 0;
        let mut i: usize = 0;
        while i < self.enemies.len()
            invariant
                self@ == w0,
                i <= w0.enemies.len(),
                n <= i,
                n as int == dead_enemies(w0.enemies.take(i as int)).len(),
            decreases w0.enemies.len() - i,
        {
            proof {
                assert(w0.enemies.take(i as int + 1).drop_last() =~= w0.enemies.take(i as int));
                assert(w0.enemies.take(i as int + 1).last() == w0.enemies[i as int]);
            }
            if self.enemies[i].health <= 0 {
                n = n + 1;
            }
            i = i + 1;
        }
        proof {
            assert(w0.enemies.take(w0.enemies.len() as int) =~= w0.enemies);
        }
        let mut rolls: Vec<bool> = Vec::new();
        while rolls.len() < n
            invariant
                self@ == w0,
                rolls@.len() <= n,
            decreases n - rolls@.len(),
        {
            let r = crate::rng::random_below(crate::loot::LOOT_DROP_DENOM);
            rolls.push(r < crate::loot::LOOT_DROP_NUMER);
        }
        self.resolve_deaths_with(&rolls);
        proof {
            assert(self@ == spec_resolve_deaths(w0, rolls@));
            lemma_spawned_pickups(dead_enemies(w0.enemies), rolls@, w0.next_id as int);
        }
    }
}

// ---------------------------------------------------------------------------
// Pickup Collector
// ---------------------------------------------------------------------------

/// Collecting the pickup at index `i`: its effect is applied exactly once
/// — experience gain with the eager leveling rule for a gem, a saturating
/// heal for a health pack — and the pickup is removed. A level-up switches
/// the phase to `LevelUp`.
pub open spec fn collect_at(w: WorldView, i: int) -> WorldView {
    match w.pickups[i].kind {
        PickupKind::ExperienceGem { value } => (WorldView {
            pickups: w.pickups.remove(i),
            stats: crate::experience::spec_gain(w.stats, value),
            phase: if w.stats.experience + value >= w.stats.xp_to_next_level {
                GameState::LevelUp
            } else {
                w.phase
            },
            ..w
        }),
        PickupKind::HealthPack { value } => (WorldView {
            pickups: w.pickups.remove(i),
            player_health: crate::math::clamped_add(
                w.player_health as int,
                value as int,
            ) as i64,
            ..w
        }),
    }
}

/// One contact event applied to the collector: if one side names a live
/// pickup and the other side is the player, that pickup is collected;
/// every other pairing — including an event whose pickup was already
/// removed — is a silent no-op.
pub open spec fn apply_collect_event(w: WorldView, ev: ContactEvent) -> WorldView {
    if find_id(w.pickup_ids(), ev.a) != -1 {
        if ev.b == w.player_id {
            collect_at(w, find_id(w.pickup_ids(), ev.a))
        } else {
            w
        }
    } else if find_id(w.pickup_ids(), ev.b) != -1 {
        if ev.a == w.player_id {
            collect_at(w, find_id(w.pickup_ids(), ev.b))
        } else {
            w
        }
    } else {
        w
    }
}

/// The world after a collector batch, applied in order.
pub open spec fn collect_fold(w: WorldView, evs: Seq<ContactEvent>) -> WorldView
    decreases evs.len(),
{
    if evs.len() == 0 {
        w
    } else {
        apply_collect_event(collect_fold(w, evs.drop_last()), evs.last())
    }
}

/// Gaining experience within the engine's value bound keeps the
/// progression record well-formed: in particular, `experience` is again
/// strictly below `xp_to_next_level` once the eager level-up has run.
pub proof fn lemma_spec_gain_wf(s: PlayerStats, v: u32)
    requires
        s.wf(),
        v <= s.xp_to_next_level,
    ensures
        crate::experience::spec_gain(s, v).wf(),
{
}

/// One collector step preserves well-formedness of the world.
pub proof fn lemma_collect_event_wf(w: WorldView, ev: ContactEvent)
    requires
        w.wf(),
    ensures
        apply_collect_event(w, ev).wf(),
{
    lemma_find_id(w.pickup_ids(), ev.a);
    lemma_find_id(w.pickup_ids(), ev.b);
    let ta = find_id(w.pickup_ids(), ev.a);
    let tb = find_id(w.pickup_ids(), ev.b);
    if ta != -1 && ev.b == w.player_id {
        lemma_collect_at_wf(w, ta);
    } else if ta == -1 && tb != -1 && ev.a == w.player_id {
        lemma_collect_at_wf(w, tb);
    }
}

/// Collecting any single live pickup preserves well-formedness.
proof fn lemma_collect_at_wf(w: WorldView, i: int)
    requires
        w.wf(),
        0 <= i < w.pickups.len(),
    ensures
        collect_at(w, i).wf(),
{
    let nv = collect_at(w, i);
    assert(forall|k: int|
        0 <= k < nv.pickups.len() ==> nv.pickups[k] == w.pickups[if k < i {
            k
        } else {
            k + 1
        }]);
    match w.pickups[i].kind {
        PickupKind::ExperienceGem { value } => {
            lemma_spec_gain_wf(w.stats, value);
        },
        PickupKind::HealthPack { value } => {},
    }
}

/// A collector batch only rewrites pickups, stats, phase and player
/// health; the enemies, the weapons and the id allocator are untouched.
pub proof fn lemma_collect_fold_frame(w: WorldView, evs: Seq<ContactEvent>)
    ensures
        collect_fold(w, evs).enemies == w.enemies,
        collect_fold(w, evs).weapons == w.weapons,
        collect_fold(w, evs).next_id == w.next_id,
        collect_fold(w, evs).player_id == w.player_id,
    decreases evs.len(),
{
    if evs.len() > 0 {
        lemma_collect_fold_frame(w, evs.drop_last());
    }
}

/// A collector batch preserves well-formedness; in particular, after any
/// collector run `experience` is strictly below `xp_to_next_level`.
pub proof fn lemma_collect_fold_wf(w: WorldView, evs: Seq<ContactEvent>)
    requires
        w.wf(),
    ensures
        collect_fold(w, evs).wf(),
    decreases evs.len(),
{
    if evs.len() > 0 {
        lemma_collect_fold_wf(w, evs.drop_last());
        lemma_collect_event_wf(collect_fold(w, evs.drop_last()), evs.last());
    }
}

impl World {
    /// Collect the pickup at roster index `t` and remove it.
    fn collect_pickup_at(&mut self, t: usize)
        requires
            old(self).wf(),
            t < old(self).pickups@.len(),
        ensures
            final(self)@ == collect_at(old(self)@, t as int),
    {
        let p = self.pickups[t];
        match p.kind {
            PickupKind::ExperienceGem { value } => {
                let leveled = self.stats.gain_experience(value);
                if leveled {
                    self.phase = GameState::LevelUp;
                }
            },
            PickupKind::HealthPack { value } => {
                assert(value >= 0);
                self.player_health = crate::math::sat_add_i64(self.player_health, value);
            },
        }
        self.pickups.remove(t);
        proof {
            assert(self@ =~= collect_at(old(self)@, t as int));
        }
    }

    /// Pickup Collector: for every contact event between the player and a
    /// live pickup, apply the pickup's effect exactly once and remove it.
    /// The resolver runs only while the phase is `Gameplay`; during
    /// `LevelUp` the whole batch is a no-op. An event naming a pickup that
    /// was already removed earlier in the batch matches nothing and is
    /// skipped, so duplicate delivery has no effect.
    pub fn collect_pickups(&mut self, events: &Vec<ContactEvent>)
        requires
            old(self).wf(),
        ensures
            final(self).wf(),
            old(self).phase is Gameplay ==> final(self)@ == collect_fold(old(self)@, events@),
            old(self).phase is LevelUp ==> final(self)@ == old(self)@,
            final(self).enemies@ == old(self).enemies@,
            final(self).weapons@ == old(self).weapons@,
            final(self).next_id == old(self).next_id,
            final(self).player_id == old(self).player_id,
    {
        match self.phase {
            GameState::LevelUp => {
                return ;
            },
            GameState::Gameplay => {},
        }
        let ghost w0 = self@;
        let mut i: usize = 0;
        proof {
            assert(events@.take(0) =~= Seq::<ContactEvent>::empty());
        }
        while i < events.len()
            invariant
                i <= events@.len(),
                w0.wf(),
                self@ == collect_fold(w0, events@.take(i as int)),
                self.wf(),
            decreases events@.len() - i,
        {
            proof {
                assert(events@.take(i as int + 1).drop_last() =~= events@.take(i as int));
                assert(events@.take(i as int + 1).last() == events@[i as int]);
            }
            let ghost wmid = self@;
            let ev = events[i];
            match self.find_pickup(ev.a) {
                Some(t) => {
                    if ev.b == self.player_id {
                        self.collect_pickup_at(t);
                    }
                },
                None => {
                    match self.find_pickup(ev.b) {
                        Some(t) => {
                            if ev.a == self.player_id {
                                self.collect_pickup_at(t);
                            }
                        },
                        None => {},
                    }
                },
            }
            proof {
                assert(self@ =~= apply_collect_event(wmid, ev));
                lemma_collect_event_wf(wmid, ev);
            }
            i = i + 1;
        }
        proof {
            assert(events@.take(events@.len() as int) =~= events@);
            lemma_collect_fold_frame(w0, events@);
        }
    }
}

// ---------------------------------------------------------------------------
// Upgrade Applier
// ---------------------------------------------------------------------------

/// Machine limits that must hold before an upgrade can be applied: the
/// touched counter must have room to grow.
pub open spec fn upgrade_fits(w: WorldView, u: Upgrade) -> bool {
    match u {
        Upgrade::AddOrbital => w.next_id < u64::MAX && w.stats.orbital_count < u32::MAX,
        Upgrade::IncreaseDamage => w.stats.damage_multiplier
            + crate::upgrade::DAMAGE_UPGRADE_STEP <= u32::MAX,
        Upgrade::IncreaseSpeed => w.stats.speed_multiplier + crate::upgrade::SPEED_UPGRADE_STEP
            <= u32::MAX,
    }
}

/// The world after an upgrade commit. Outside the `LevelUp` phase the
/// signal is ignored, so repeated commits after the first are no-ops.
/// Inside it, exactly one effect is applied — a new weapon volume, two
/// tenths more damage multiplier, or one tenth more speed multiplier —
/// and the phase returns to `Gameplay`.
pub open spec fn spec_apply_upgrade(w: WorldView, u: Upgrade) -> WorldView {
    if w.phase is LevelUp {
        match u {
            Upgrade::AddOrbital => (WorldView {
                weapons: w.weapons.push(w.next_id),
                stats: (PlayerStats {
                    orbital_count: (w.stats.orbital_count + 1) as u32,
                    ..w.stats
                }),
                next_id: (w.next_id + 1) as u64,
                phase: GameState::Gameplay,
                ..w
            }),
            Upgrade::IncreaseDamage => (WorldView {
                stats: (PlayerStats {
                    damage_multiplier: (w.stats.damage_multiplier
                        + crate::upgrade::DAMAGE_UPGRADE_STEP) as u32,
                    ..w.stats
                }),
                phase: GameState::Gameplay,
                ..w
            }),
            Upgrade::IncreaseSpeed => (WorldView {
                stats: (PlayerStats {
                    speed_multiplier: (w.stats.speed_multiplier
                        + crate::upgrade::SPEED_UPGRADE_STEP) as u32,
                    ..w.stats
                }),
                phase: GameState::Gameplay,
                ..w
            }),
        }
    } else {
        w
    }
}

impl World {
    /// Upgrade Applier: commit the upgrade the player chose on the
    /// level-up screen. While the phase is `LevelUp`, exactly one upgrade
    /// effect is applied and the phase returns to `Gameplay`; any commit
    /// arriving in `Gameplay` — such as a repeated signal after the first
    /// — is ignored, which makes selection idempotent per level-up cycle.
    pub fn apply_upgrade(&mut self, upgrade: Upgrade)
        requires
            old(self).wf(),
            old(self).phase is LevelUp ==> upgrade_fits(old(self)@, upgrade),
        ensures
            final(self).wf(),
            final(self)@ == spec_apply_upgrade(old(self)@, upgrade),
    {
        match self.phase {
            GameState::Gameplay => {},
            GameState::LevelUp => {
                match upgrade {
                    Upgrade::AddOrbital => {
                        let _new_weapon = self.spawn_orbital_weapon();
                    },
                    Upgrade::IncreaseDamage => {
                        self.stats.damage_multiplier = self.stats.damage_multiplier
                            + crate::upgrade::DAMAGE_UPGRADE_STEP;
                    },
                    Upgrade::IncreaseSpeed => {
                        self.stats.speed_multiplier = self.stats.speed_multiplier
                            + crate::upgrade::SPEED_UPGRADE_STEP;
                    },
                }
                self.phase = GameState::Gameplay;
                proof {
                    assert(self@ =~= spec_apply_upgrade(old(self)@, upgrade));
                }
            },
        }
    }
}

// ---------------------------------------------------------------------------
// One simulation tick
// ---------------------------------------------------------------------------

/// The world after one whole tick on one batch of contact events and the
/// given loot rolls: damage first, then deaths and rewards (both of which
/// also run during `LevelUp`), then — only in `Gameplay` — pickup
/// collection and the leveling economy.
pub open spec fn spec_tick(w: WorldView, evs: Seq<ContactEvent>, rolls: Seq<bool>) -> WorldView {
    let w1 = damage_fold(w, spec_damage_per_hit(w.stats), evs);
    let w2 = spec_resolve_deaths(w1, rolls);
    if w2.phase is Gameplay {
        collect_fold(w2, evs)
    } else {
        w2
    }
}

impl World {
    /// Run one simulation tick over one batch of contact events, in the
    /// hard dependency order: the Damage Resolver, then the Death & Reward
    /// Resolver (with fresh loot rolls), then the phase-gated Pickup
    /// Collector. Combat keeps resolving during `LevelUp`; only collection
    /// and the leveling economy pause.
    pub fn tick(&mut self, events: &Vec<ContactEvent>)
        requires
            old(self).wf(),
            old(self).next_id + old(self)@.enemies.len() <= u64::MAX,
        ensures
            final(self).wf(),
            exists|rolls: Seq<bool>| final(self)@ == spec_tick(old(self)@, events@, rolls),
    {
        let ghost w0 = self@;
        self.resolve_damage(events);
        let ghost w1 = self@;
        self.resolve_deaths();
        let ghost w2 = self@;
        let ghost rolls = choose|rs: Seq<bool>|
            rs.len() == dead_enemies(w1.enemies).len() && w2 == spec_resolve_deaths(w1, rs);
        self.collect_pickups(events);
        proof {
            assert(self@ == spec_tick(w0, events@, rolls));
        }
    }
}

} // verus!
