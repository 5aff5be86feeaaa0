use arena_core::enemy::EnemyType;
use arena_core::loot::{Pickup, PickupKind};
use arena_core::world::{ContactEvent, World};
use arena_core::{GameState, Position};

#[test]
fn session_start_world() {
    let w = World::new();
    assert_eq!(w.player_id, 0);
    assert_eq!(w.player_health, 1000);
    assert_eq!(w.weapons, vec![1]);
    assert_eq!(w.enemies.len(), 0);
    assert_eq!(w.pickups.len(), 0);
    assert_eq!(w.phase, GameState::Gameplay);
    assert_eq!(w.stats.orbital_count, 1);
}

#[test]
fn stat_table() {
    let grunt = EnemyType::Grunt.get_stats();
    assert_eq!(grunt.health, 500);
    assert_eq!(grunt.speed, 2500);
    assert_eq!(grunt.size, 400);
    let tank = EnemyType::Tank.get_stats();
    assert_eq!(tank.health, 2000);
    assert_eq!(tank.speed, 1500);
    assert_eq!(tank.size, 750);
}

#[test]
fn one_hit_deals_base_damage_times_multiplier() {
    let mut w = World::new();
    let id = w.spawn_enemy(EnemyType::Grunt, Position { x: 10, y: 20 });
    w.resolve_damage(&vec![ContactEvent { a: 1, b: id }]);
    // 10.0 damage at multiplier 1.0 is 100 tenths.
    assert_eq!(w.enemies[0].health, 400);
}

#[test]
fn event_sides_may_come_in_either_order() {
    let mut w = World::new();
    let id = w.spawn_enemy(EnemyType::Grunt, Position { x: 0, y: 0 });
    w.resolve_damage(&vec![ContactEvent { a: id, b: 1 }]);
    assert_eq!(w.enemies[0].health, 400);
}

#[test]
fn damage_scales_with_upgraded_multiplier() {
    let mut w = World::new();
    w.phase = GameState::LevelUp;
    w.apply_upgrade(arena_core::upgrade::Upgrade::IncreaseDamage);
    let id = w.spawn_enemy(EnemyType::Grunt, Position { x: 0, y: 0 });
    w.resolve_damage(&vec![ContactEvent { a: 1, b: id }]);
    // 10.0 * 1.2 = 12.0 damage: 120 tenths.
    assert_eq!(w.enemies[0].health, 380);
}

#[test]
fn damage_is_additive_per_event_in_one_batch() {
    let mut w = World::new();
    let id = w.spawn_enemy(EnemyType::Grunt, Position { x: 0, y: 0 });
    let ev = ContactEvent { a: 1, b: id };
    w.resolve_damage(&vec![ev, ev, ev]);
    assert_eq!(w.enemies[0].health, 200);
}

#[test]
fn unrelated_contacts_deal_no_damage() {
    let mut w = World::new();
    let id = w.spawn_enemy(EnemyType::Grunt, Position { x: 0, y: 0 });
    // Player-enemy, enemy-enemy and stale-id contacts are all skipped.
    w.resolve_damage(&vec![
        ContactEvent { a: 0, b: id },
        ContactEvent { a: id, b: id },
        ContactEvent { a: 999, b: id },
    ]);
    assert_eq!(w.enemies[0].health, 500);
}

#[test]
fn damage_never_removes_the_enemy() {
    let mut w = World::new();
    let id = w.spawn_enemy(EnemyType::Grunt, Position { x: 0, y: 0 });
    let ev = ContactEvent { a: 1, b: id };
    w.resolve_damage(&vec![ev; 9]);
    // Health went below zero, but removal is the death resolver's job.
    assert_eq!(w.enemies.len(), 1);
    assert_eq!(w.enemies[0].health, -400);
}

#[test]
fn end_to_end_five_hits_kill_and_drop_one_pickup() {
    // An enemy with 50.0 health takes two 10.0-damage hits per tick for
    // two ticks and one more in the third: after the fifth discrete event
    // its health is exactly zero, it is removed, and exactly one pickup
    // appears at its last position.
    let mut w = World::new();
    let id = w.spawn_enemy(EnemyType::Grunt, Position { x: 30, y: 40 });
    let ev = ContactEvent { a: 1, b: id };
    w.resolve_damage(&vec![ev, ev]);
    w.resolve_deaths();
    assert_eq!(w.enemies.len(), 1);
    w.resolve_damage(&vec![ev, ev]);
    w.resolve_deaths();
    assert_eq!(w.enemies.len(), 1);
    assert_eq!(w.enemies[0].health, 100);
    w.resolve_damage(&vec![ev]);
    assert_eq!(w.enemies[0].health, 0);
    w.resolve_deaths();
    assert_eq!(w.enemies.len(), 0);
    assert_eq!(w.pickups.len(), 1);
    assert_eq!(w.pickups[0].pos, Position { x: 30, y: 40 });
}

#[test]
fn deaths_with_rolls_decide_the_pickup_kinds() {
    let mut w = World::new();
    let a = w.spawn_enemy(EnemyType::Grunt, Position { x: 1, y: 2 });
    let b = w.spawn_enemy(EnemyType::Grunt, Position { x: 3, y: 4 });
    let next_before = w.next_id;
    let ev_a = ContactEvent { a: 1, b: a };
    let ev_b = ContactEvent { a: 1, b: b };
    w.resolve_damage(&vec![ev_a; 5]);
    w.resolve_damage(&vec![ev_b; 5]);
    w.resolve_deaths_with(&vec![true, false]);
    assert_eq!(w.enemies.len(), 0);
    assert_eq!(w.pickups.len(), 2);
    assert_eq!(
        w.pickups[0],
        Pickup {
            id: next_before,
            kind: PickupKind::HealthPack { value: 250 },
            pos: Position { x: 1, y: 2 },
        }
    );
    assert_eq!(
        w.pickups[1],
        Pickup {
            id: next_before + 1,
            kind: PickupKind::ExperienceGem { value: 10 },
            pos: Position { x: 3, y: 4 },
        }
    );
}

#[test]
fn survivors_keep_their_order_and_health() {
    let mut w = World::new();
    let a = w.spawn_enemy(EnemyType::Grunt, Position { x: 0, y: 0 });
    let b = w.spawn_enemy(EnemyType::Tank, Position { x: 0, y: 0 });
    let c = w.spawn_enemy(EnemyType::Grunt, Position { x: 0, y: 0 });
    let ev = ContactEvent { a: 1, b };
    w.resolve_damage(&vec![ev]);
    let kill = ContactEvent { a: 1, b: a };
    w.resolve_damage(&vec![kill; 5]);
    w.resolve_deaths();
    assert_eq!(w.enemies.len(), 2);
    assert_eq!(w.enemies[0].id, b);
    assert_eq!(w.enemies[0].health, 1900);
    assert_eq!(w.enemies[1].id, c);
}

#[test]
fn loot_drop_rate_is_three_in_ten() {
    // Statistical check of the 0.3 health-pack probability over 10000
    // deaths, with a two-percentage-point tolerance.
    let mut packs = 0usize;
    for _ in 0..10000 {
        let mut w = World::new();
        let id = w.spawn_enemy(EnemyType::Grunt, Position { x: 0, y: 0 });
        let ev = ContactEvent { a: 1, b: id };
        w.resolve_damage(&vec![ev; 5]);
        w.resolve_deaths();
        assert_eq!(w.pickups.len(), 1);
        if let PickupKind::HealthPack { value } = w.pickups[0].kind {
            assert_eq!(value, 250);
            packs += 1;
        } else {
            assert_eq!(w.pickups[0].kind, PickupKind::ExperienceGem { value: 10 });
        }
    }
    assert!(packs >= 2800 && packs <= 3200, "health packs: {}", packs);
}

#[test]
fn health_pack_heals_without_clamp() {
    let mut w = World::new();
    let pid = w.spawn_loot_drop(Position { x: 0, y: 0 });
    w.collect_pickups(&vec![ContactEvent { a: 0, b: pid }]);
    // 100.0 + 25.0 = 125.0, above the starting maximum: no clamp.
    assert_eq!(w.player_health, 1250);
    assert_eq!(w.pickups.len(), 0);
}

#[test]
fn collection_is_gated_by_the_phase() {
    // During upgrade selection a player-gem contact changes nothing.
    let mut w = World::new();
    let gid = w.spawn_experience_gem(Position { x: 0, y: 0 });
    w.phase = GameState::LevelUp;
    w.collect_pickups(&vec![ContactEvent { a: gid, b: 0 }]);
    assert_eq!(w.stats.experience, 0);
    assert_eq!(w.pickups.len(), 1);
}

#[test]
fn combat_keeps_running_during_upgrade_selection() {
    // Only the collector pauses in LevelUp: damage and deaths still run.
    let mut w = World::new();
    let id = w.spawn_enemy(EnemyType::Grunt, Position { x: 7, y: 8 });
    w.phase = GameState::LevelUp;
    let ev = ContactEvent { a: 1, b: id };
    w.resolve_damage(&vec![ev; 5]);
    w.resolve_deaths();
    assert_eq!(w.enemies.len(), 0);
    assert_eq!(w.pickups.len(), 1);
}

#[test]
fn duplicate_contact_for_a_collected_pickup_is_a_no_op() {
    let mut w = World::new();
    let pid = w.spawn_loot_drop(Position { x: 0, y: 0 });
    let ev = ContactEvent { a: pid, b: 0 };
    w.collect_pickups(&vec![ev, ev]);
    // One heal, one removal; the duplicate matched nothing.
    assert_eq!(w.player_health, 1250);
    assert_eq!(w.pickups.len(), 0);
    // Re-delivering in a later batch is also a no-op.
    w.collect_pickups(&vec![ev]);
    assert_eq!(w.player_health, 1250);
}

#[test]
fn pickup_contact_sides_may_come_in_either_order() {
    let mut w = World::new();
    let gid = w.spawn_experience_gem(Position { x: 0, y: 0 });
    w.collect_pickups(&vec![ContactEvent { a: 0, b: gid }]);
    assert_eq!(w.stats.experience, 10);
}

#[test]
fn pickup_contact_with_a_non_player_is_skipped() {
    let mut w = World::new();
    let id = w.spawn_enemy(EnemyType::Grunt, Position { x: 0, y: 0 });
    let gid = w.spawn_experience_gem(Position { x: 0, y: 0 });
    w.collect_pickups(&vec![ContactEvent { a: gid, b: id }]);
    assert_eq!(w.stats.experience, 0);
    assert_eq!(w.pickups.len(), 1);
}

#[test]
fn tick_runs_damage_deaths_and_collection_in_order() {
    // A gem and a lethal contact in the same batch: damage resolves, the
    // death drops a new pickup, and the pre-existing gem is collected.
    let mut w = World::new();
    let id = w.spawn_enemy(EnemyType::Grunt, Position { x: 5, y: 6 });
    let gid = w.spawn_experience_gem(Position { x: 0, y: 0 });
    let mut events = vec![ContactEvent { a: 1, b: id }; 5];
    events.push(ContactEvent { a: gid, b: 0 });
    w.tick(&events);
    assert_eq!(w.enemies.len(), 0);
    assert_eq!(w.stats.experience, 10);
    // The dead enemy's drop is there; the collected gem is gone.
    assert_eq!(w.pickups.len(), 1);
    assert_eq!(w.pickups[0].pos, Position { x: 5, y: 6 });
}
