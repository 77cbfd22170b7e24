use ten_second_towers::economy::{boost_spawn, buy_for_roll, get_spawns, WaveStatus};
use ten_second_towers::enemies::{BulletType, EnemyType, Health};
use ten_second_towers::targeting::{isqrt, lead_shot};
use ten_second_towers::tower_nodes::get_closest_enemy;
use ten_second_towers::towers::{tower_level_color, Rgb, TowerClass, TowerCooldowns, TowerType};

#[test]
fn stationary_target_is_hit_after_distance_over_speed() {
    let shot = lead_shot(512, (0, 0), (300, 400), (0, 0)).unwrap();
    // 500 px at 512 px/s: 976.5625 ms.
    assert_eq!(shot.time_ms, 976);
    assert_eq!((shot.aim_x, shot.aim_y), (300000, 400000));
}

#[test]
fn target_fleeing_faster_than_projectile_has_no_solution() {
    assert!(lead_shot(100, (0, 0), (50, 0), (200, 0)).is_none());
    assert!(lead_shot(100, (0, 0), (30, 40), (120, 160)).is_none());
}

#[test]
fn crossing_target_is_led() {
    // Target 300 px up the x axis moving at 400 px/s along y, projectile at 500 px/s:
    // 250000 t² = 90000 + 160000 t², so t = 1 s.
    let shot = lead_shot(500, (0, 0), (300, 0), (0, 400)).unwrap();
    assert_eq!(shot.time_ms, 1000);
    assert_eq!((shot.aim_x, shot.aim_y), (300000, 400000));
}

#[test]
fn approaching_faster_target_takes_earliest_meeting() {
    // Target 100 px away rushing in at 300 px/s, projectile at 100 px/s:
    // roots of 80000 t² - 60000 t + 10000 are 0.25 s and 0.5 s.
    let shot = lead_shot(100, (0, 0), (100, 0), (-300, 0)).unwrap();
    assert_eq!(shot.time_ms, 250);
}

#[test]
fn target_on_the_shooter_has_no_positive_time() {
    assert!(lead_shot(100, (5, 5), (5, 5), (0, 0)).is_none());
}

#[test]
fn integer_square_roots() {
    assert_eq!(isqrt(0), 0);
    assert_eq!(isqrt(15), 3);
    assert_eq!(isqrt(16), 4);
    assert_eq!(isqrt(u128::MAX), u64::MAX as u128);
}

#[test]
fn closest_enemy_prefers_the_first_of_equals() {
    let enemies = vec![
        ((10, 0), EnemyType::Basic, (0, 0)),
        ((0, 5), EnemyType::Fast, (0, 0)),
        ((-5, 0), EnemyType::Gnat, (0, 0)),
    ];
    assert_eq!(get_closest_enemy((0, 0), &enemies), Some(1));
    assert_eq!(get_closest_enemy((0, 0), &Vec::new()), None);
}

#[test]
fn tower_prices_and_refunds() {
    assert_eq!(TowerClass::Triple.get_mineral_cost(), 6);
    assert_eq!(TowerClass::BigBomb.get_dust_cost(), 5);
    assert_eq!(TowerClass::BigBomb.get_tech_cost(), 2);
    assert_eq!(TowerClass::Silo.get_mineral_deconstruct(), 0);
    assert_eq!(TowerClass::Triple.get_mineral_deconstruct(), 5);
    assert_eq!(TowerClass::Attack.get_dust_deconstruct(), 3);
    assert_eq!(TowerClass::BigBomb.get_tech_deconstruct(), 0);
    assert_eq!(TowerType { class: TowerClass::Triple, level: 3 }.get_mineral_deconstruct(), 5);
    assert_eq!(TowerClass::Burst.get_sprite_index(), 16);
    assert!(TowerClass::Wall.is_blocking());
}

#[test]
fn tower_ammunition_by_class_and_level() {
    let attack = TowerClass::Attack.get_cooldowns(2);
    assert_eq!((attack.ammo_left, attack.max_ammo), (7, 7));
    let triple = TowerType { class: TowerClass::Triple, level: 1 }.get_cooldowns();
    assert_eq!((triple.ammo_left, triple.max_ammo), (16, 16));
    let silo = TowerClass::Silo.get_cooldowns(1);
    assert_eq!(silo.ammo_left, 10);
    let wall = TowerClass::Wall.get_cooldowns(5);
    assert_eq!((wall.ammo_left, wall.max_ammo), (0, 1));
    assert!(!wall.has_ammo());
    assert!(wall.can_gain_ammo());
}

#[test]
fn cooldowns_track_time_and_ammunition() {
    let mut c = TowerCooldowns { time_since_shot: 0, time_since_hit: 5, ammo_left: 1, max_ammo: 2 };
    c.pass_time(250);
    assert_eq!((c.time_since_shot, c.time_since_hit), (250, 255));
    assert!(c.use_ammo());
    assert_eq!(c.ammo_left, 0);
    assert!(!c.use_ammo());
    assert_eq!(c.ammo_left, 0);
}

#[test]
fn level_colors() {
    assert_eq!(tower_level_color(0), Rgb { r: 1000, g: 1000, b: 1000 });
    assert_eq!(tower_level_color(1), Rgb { r: 430, g: 1000, b: 384 });
    assert_eq!(tower_level_color(9), Rgb { r: 1000, g: 0, b: 477 });
}

#[test]
fn enemy_stats() {
    let h = EnemyType::Buster.get_health(2);
    assert_eq!((h.max_health, h.health, h.dead), (30, 30, false));
    assert_eq!(EnemyType::Seeker.get_health(0).max_health, 4);
    assert_eq!(EnemyType::Buster.get_death_tile_cost(), 100);
    assert_eq!(EnemyType::Thief.get_mineral_loot(), 3);
    assert_eq!(EnemyType::Gnat.get_dust_loot(), 1);
    assert_eq!(EnemyType::Fast.get_tech_loot(), 0);
    assert_eq!(EnemyType::Mugger.get_sprite(), 6);
    assert_eq!(EnemyType::Buster.get_speed(), 96);
}

#[test]
fn health_dies_and_revives() {
    let mut h = Health { max_health: 5, health: 1, dead: false };
    assert!(!h.dies());
    h.health = 0;
    assert!(h.dies());
    assert!(h.dead);
    h.revive();
    assert_eq!((h.health, h.dead), (5, false));
}

#[test]
fn bullet_properties() {
    let b = BulletType::Basic { sprite_index: 2, damage: 7 };
    assert_eq!(b.get_sprite_index(), 2);
    assert_eq!(b.damage(), 7);
}

#[test]
fn buying_needs_every_resource() {
    let mut w = WaveStatus::default();
    assert!(w.buy(TowerClass::Attack));
    assert_eq!((w.minerals, w.dust, w.tech), (3, 1, 0));
    assert!(!w.buy(TowerClass::Silo));
    assert_eq!((w.minerals, w.dust, w.tech), (3, 1, 0));
    assert!(!w.buy(TowerClass::Burst));
}

#[test]
fn upgrading_costs_grow_with_level() {
    let mut w = WaveStatus::default();
    w.minerals = 30;
    w.dust = 30;
    assert!(w.upgrade(TowerType { class: TowerClass::Attack, level: 2 }));
    assert_eq!((w.minerals, w.dust), (15, 25));
    assert!(!w.upgrade(TowerType { class: TowerClass::Attack, level: 3 }));
    assert_eq!((w.minerals, w.dust), (15, 25));
}

#[test]
fn selling_and_looting_refill_resources() {
    let mut w = WaveStatus::default();
    w.sell(TowerType { class: TowerClass::BigBomb, level: 0 });
    assert_eq!((w.minerals, w.dust, w.tech), (7, 4, 0));
    w.loot(&EnemyType::Buster);
    assert_eq!((w.minerals, w.dust, w.tech), (10, 5, 1));
}

#[test]
fn wave_end_schedules_next_wave() {
    let mut w = WaveStatus::default();
    assert!(!w.drain_wave_end());
    w.time_left_ms = -5;
    assert!(w.drain_wave_end());
    assert_eq!(w.wave_id, 1);
    assert_eq!(w.time_left_ms, 9995);
    assert_eq!(w.spawns, vec![(EnemyType::Basic, 0)]);
    assert_eq!(w.get_countdown_value(), 9);
    w.time_left_ms = -1;
    assert_eq!(w.get_countdown_value(), -1);
}

#[test]
fn timed_spawns_leave_one_by_one() {
    let mut w = WaveStatus::default();
    w.spawns = vec![(EnemyType::Basic, 0), (EnemyType::Seeker, 1), (EnemyType::Fast, 0)];
    // Three enemies over three seconds: one per second, the last one first.
    assert_eq!(w.drain_timed_spawn(), Some((EnemyType::Fast, 0)));
    assert_eq!(w.drain_timed_spawn(), None);
    w.time_left_ms = 9000;
    assert_eq!(w.drain_timed_spawn(), Some((EnemyType::Seeker, 1)));
    assert_eq!(w.get_total_spawns(), 3);
    w.time_left_ms = 7000;
    assert_eq!(w.drain_timed_spawn(), Some((EnemyType::Basic, 0)));
    assert_eq!(w.drain_timed_spawn(), None);
}

#[test]
fn game_over_is_reported_once() {
    let mut w = WaveStatus::default();
    assert!(!w.drain_game_over());
    w.health = 0;
    assert!(w.drain_game_over());
    assert!(!w.drain_game_over());
}

#[test]
fn scripted_and_generated_waves() {
    assert_eq!(get_spawns(3), vec![(EnemyType::Basic, 0), (EnemyType::Basic, 0), (EnemyType::Seeker, 0)]);
    assert_eq!(get_spawns(31).len(), 36);
    assert!(get_spawns(31).iter().all(|s| *s == (EnemyType::Basic, 5)));
    let generated = get_spawns(12);
    assert!(!generated.is_empty());
    assert!(generated.iter().all(|s| s.1 >= 0));
    assert!(get_spawns(0).is_empty());
}

#[test]
fn stings_cycle_every_31_waves() {
    let w = WaveStatus::default();
    assert_eq!(w.get_sting_for(1), "stings/ChoirSaprano.ogg");
    assert_eq!(w.get_sting_for(31), "stings/VictorySting.ogg");
    assert_eq!(w.get_sting_for(32), "stings/ChoirSaprano.ogg");
    assert_eq!(w.get_sting_for(58), "stings/SquareWaveEb.ogg");
}

#[test]
fn tutorial_hints_by_wave() {
    let mut w = WaveStatus::default();
    assert_eq!(w.get_tutorial(), Some("Place a tower near the center line by left-clicking."));
    w.wave_id = 9;
    assert_eq!(w.get_tutorial(), None);
    w.wave_id = 16;
    assert_eq!(w.get_tutorial(), Some("That was round 15! Keep on going!"));
}

#[test]
fn rolls_buy_enemies_within_budget() {
    assert_eq!(buy_for_roll(8, 5), (vec![(EnemyType::Buster, 0)], 3));
    assert_eq!(buy_for_roll(9, 3), (vec![(EnemyType::Basic, 0)], 1));
    assert_eq!(buy_for_roll(2, 1), (vec![(EnemyType::Gnat, 0); 3], 1));
    assert_eq!(buy_for_roll(11, 4), (vec![(EnemyType::Mugger, 0)], 2));
    assert_eq!(buy_for_roll(0, 9), (vec![(EnemyType::Basic, 0)], 1));
}

#[test]
fn boosting_costs_the_new_boost_count() {
    let mut wave = vec![(EnemyType::Basic, 0), (EnemyType::Fast, 2)];
    assert_eq!(boost_spawn(&mut wave, 1, 10), 7);
    assert_eq!(wave[1], (EnemyType::Fast, 3));
}

#[test]
fn waves_without_budget_are_empty() {
    assert!(get_spawns(-4).is_empty());
}

#[test]
fn late_waves_are_generated_too() {
    let wave = get_spawns(100_001);
    assert!(!wave.is_empty());
    assert!(wave.iter().all(|s| s.1 >= 0));
}
