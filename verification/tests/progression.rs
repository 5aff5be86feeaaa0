use arena_core::experience::PlayerStats;
use arena_core::upgrade::{offer_upgrades, Upgrade};
use arena_core::world::{ContactEvent, World};
use arena_core::{GameState, Position};

#[test]
fn default_stats_are_session_start_values() {
    let s: PlayerStats = Default::default();
    assert_eq!(s.level, 1);
    assert_eq!(s.experience, 0);
    assert_eq!(s.xp_to_next_level, 100);
    assert_eq!(s.damage_multiplier, 10);
    assert_eq!(s.speed_multiplier, 10);
    assert_eq!(s.orbital_count, 1);
}

#[test]
fn gain_below_threshold_only_accumulates() {
    let mut s: PlayerStats = Default::default();
    let leveled = s.gain_experience(10);
    assert!(!leveled);
    assert_eq!(s.level, 1);
    assert_eq!(s.experience, 10);
    assert_eq!(s.xp_to_next_level, 100);
}

#[test]
fn leveling_at_95_plus_gem_of_10() {
    // Crossing the first threshold: 95 + 10 leaves 5 over, the threshold
    // grows to round(100 * 1.5) = 150, and the level rises by one.
    let mut w = World::new();
    let gid = w.spawn_experience_gem(Position { x: 0, y: 0 });
    w.stats.experience = 95;
    let events = vec![ContactEvent { a: gid, b: 0 }];
    w.collect_pickups(&events);
    assert_eq!(w.stats.level, 2);
    assert_eq!(w.stats.experience, 5);
    assert_eq!(w.stats.xp_to_next_level, 150);
    assert_eq!(w.phase, GameState::LevelUp);
    assert_eq!(w.pickups.len(), 0);
}

#[test]
fn threshold_rounding_half_up() {
    // 150 * 1.5 = 225 exactly; 225 * 1.5 = 337.5 rounds half away from
    // zero to 338.
    let mut s = PlayerStats {
        level: 2,
        experience: 145,
        xp_to_next_level: 150,
        damage_multiplier: 10,
        speed_multiplier: 10,
        orbital_count: 1,
    };
    assert!(s.gain_experience(10));
    assert_eq!(s.xp_to_next_level, 225);
    let mut s2 = PlayerStats {
        xp_to_next_level: 225,
        experience: 224,
        ..s
    };
    assert!(s2.gain_experience(10));
    assert_eq!(s2.xp_to_next_level, 338);
}

#[test]
fn single_gain_levels_at_most_once() {
    // A gain crossing the threshold by a wide margin still levels once.
    let mut s: PlayerStats = Default::default();
    s.experience = 95;
    let leveled = s.gain_experience(100);
    assert!(leveled);
    assert_eq!(s.level, 2);
    assert_eq!(s.experience, 95);
    assert_eq!(s.xp_to_next_level, 150);
}

#[test]
fn experience_invariant_after_collector_runs() {
    // However many gems one batch delivers, experience ends strictly
    // below the threshold.
    let mut w = World::new();
    let mut events = Vec::new();
    for _ in 0..30 {
        let id = w.spawn_experience_gem(Position { x: 0, y: 0 });
        events.push(ContactEvent { a: id, b: 0 });
    }
    w.collect_pickups(&events);
    assert!(w.stats.experience < w.stats.xp_to_next_level);
    assert_eq!(w.stats.level, 3);
    assert_eq!(w.stats.experience, 50);
    assert_eq!(w.stats.xp_to_next_level, 225);
}

#[test]
fn increase_damage_twice_reaches_1_4() {
    let mut w = World::new();
    w.phase = GameState::LevelUp;
    w.apply_upgrade(Upgrade::IncreaseDamage);
    assert_eq!(w.phase, GameState::Gameplay);
    assert_eq!(w.stats.damage_multiplier, 12);
    w.phase = GameState::LevelUp;
    w.apply_upgrade(Upgrade::IncreaseDamage);
    assert_eq!(w.stats.damage_multiplier, 14);
}

#[test]
fn add_orbital_spawns_exactly_one_weapon() {
    let mut w = World::new();
    assert_eq!(w.weapons.len(), 1);
    w.phase = GameState::LevelUp;
    w.apply_upgrade(Upgrade::AddOrbital);
    assert_eq!(w.stats.orbital_count, 2);
    assert_eq!(w.weapons.len(), 2);
    assert_eq!(w.phase, GameState::Gameplay);
}

#[test]
fn increase_speed_adds_one_tenth() {
    let mut w = World::new();
    w.phase = GameState::LevelUp;
    w.apply_upgrade(Upgrade::IncreaseSpeed);
    assert_eq!(w.stats.speed_multiplier, 11);
}

#[test]
fn repeated_commit_signals_are_ignored() {
    // After the first commit the machine is back in Gameplay, so a
    // duplicate commit applies nothing.
    let mut w = World::new();
    w.phase = GameState::LevelUp;
    w.apply_upgrade(Upgrade::IncreaseDamage);
    w.apply_upgrade(Upgrade::IncreaseDamage);
    assert_eq!(w.stats.damage_multiplier, 12);
}

#[test]
fn offer_holds_all_three_upgrades() {
    let offer = offer_upgrades();
    assert_eq!(offer.len(), 3);
    assert!(offer.contains(&Upgrade::AddOrbital));
    assert!(offer.contains(&Upgrade::IncreaseDamage));
    assert!(offer.contains(&Upgrade::IncreaseSpeed));
}

#[test]
fn upgrade_descriptions() {
    assert_eq!(
        Upgrade::AddOrbital.get_description(),
        "Add another orbiting weapon"
    );
    assert_eq!(
        Upgrade::IncreaseDamage.get_description(),
        "Increase weapon damage by 20%"
    );
    assert_eq!(
        Upgrade::IncreaseSpeed.get_description(),
        "Increase movement speed by 10%"
    );
}

#[test]
fn all_lists_the_three_upgrades_in_order() {
    let all = Upgrade::all();
    assert_eq!(
        all,
        vec![
            Upgrade::AddOrbital,
            Upgrade::IncreaseDamage,
            Upgrade::IncreaseSpeed
        ]
    );
}
