use ten_second_towers::economy::WaveStatus;
use ten_second_towers::enemies::{EnemyType, Health};
use ten_second_towers::field::{
    spawn_field, Field, FieldLocation, FieldLocationContents, Pathability, FIELD_HEIGHT,
    FIELD_WIDTH,
};
use ten_second_towers::simulation::{
    assist_tower, get_helper_name, health_crystal, highlight_field_location, highlight_sprite,
    hit_goal, resolve_enemy_death, spawn_enemy, uses_flat_costs, steal_ammo, tower_class_for_key, tower_flavor,
    CrystalState, EnemyBundle, FieldLocationHighlight,
};
use ten_second_towers::towers::{Rgb, TowerClass, TowerCooldowns, TowerType};

fn corridor_field() -> Field {
    let mut locations = Vec::new();
    for y in 0..3 {
        for x in 0..3 {
            locations.push(((y * 3 + x) as u64, FieldLocationContents::Empty, Pathability::Pathable));
        }
    }
    let mut f = Field::new(3, 3, 32, (16, 16), (0, 1), (2, 1), locations);
    let wall = FieldLocationContents::Tower(50, TowerType { class: TowerClass::Wall, level: 0 });
    f.update_contents(&FieldLocation(1, 0), &wall);
    f.update_contents(&FieldLocation(1, 2), &wall);
    f
}

#[test]
fn buster_blocking_the_corridor_revives() {
    let mut f = corridor_field();
    let mut w = WaveStatus::default();
    let mut h = Health { max_health: 10, health: 0, dead: true };
    assert!(!resolve_enemy_death(&mut f, &mut w, EnemyType::Buster, &mut h, FieldLocation(1, 1)));
    assert_eq!((h.health, h.dead), (10, false));
    assert_eq!(f.get_tile_cost(&FieldLocation(1, 1)), 1);
    assert_eq!((w.minerals, w.dust, w.tech), (6, 2, 0));
}

#[test]
fn other_deaths_mark_the_tile_and_pay_loot() {
    let mut f = corridor_field();
    let mut w = WaveStatus::default();
    let mut h = Health { max_health: 4, health: 0, dead: true };
    assert_eq!((w.dust, w.tech), (2, 0));
    assert!(resolve_enemy_death(&mut f, &mut w, EnemyType::Seeker, &mut h, FieldLocation(1, 1)));
    assert_eq!(f.get_tile_cost(&FieldLocation(1, 1)), 51);
    assert_eq!((w.minerals, w.dust, w.tech), (8, 3, 0));
    let mut b = Health { max_health: 10, health: 0, dead: true };
    assert!(resolve_enemy_death(&mut f, &mut w, EnemyType::Buster, &mut b, FieldLocation(2, 2)));
    assert_eq!(f.get_tile_cost(&FieldLocation(2, 2)), 101);
}

#[test]
fn goal_hits_end_the_game_once() {
    let mut w = WaveStatus::default();
    w.health = 2;
    assert!(!hit_goal(&mut w));
    assert!(hit_goal(&mut w));
    assert_eq!(w.health, 0);
    assert!(!hit_goal(&mut w));
}

#[test]
fn thieves_steal_while_wounded() {
    let mut tower = TowerCooldowns { time_since_shot: 0, time_since_hit: 0, ammo_left: 1, max_ammo: 3 };
    let mut h = Health { max_health: 5, health: 3, dead: false };
    steal_ammo(EnemyType::Thief, &mut h, &mut tower);
    assert_eq!((h.health, tower.ammo_left), (4, 0));
    steal_ammo(EnemyType::Thief, &mut h, &mut tower);
    assert_eq!((h.health, tower.ammo_left), (4, 0));
    tower.ammo_left = 2;
    steal_ammo(EnemyType::Mugger, &mut h, &mut tower);
    assert_eq!((h.health, tower.ammo_left), (4, 2));
}

#[test]
fn assisting_needs_room_and_ammunition() {
    let mut giver = TowerCooldowns { time_since_shot: 0, time_since_hit: 0, ammo_left: 2, max_ammo: 10 };
    let mut receiver = TowerCooldowns { time_since_shot: 0, time_since_hit: 0, ammo_left: 0, max_ammo: 1 };
    assert!(assist_tower(&mut giver, &mut receiver));
    assert_eq!((giver.ammo_left, receiver.ammo_left), (1, 1));
    assert!(!assist_tower(&mut giver, &mut receiver));
    assert_eq!((giver.ammo_left, receiver.ammo_left), (1, 1));
}

#[test]
fn health_crystals() {
    assert_eq!(health_crystal(5, 1), CrystalState::Full);
    assert_eq!(health_crystal(5, 2), CrystalState::Half);
    assert_eq!(health_crystal(5, 3), CrystalState::Hidden);
    assert_eq!(health_crystal(4, 2), CrystalState::Hidden);
    assert_eq!(health_crystal(0, 0), CrystalState::Hidden);
}

#[test]
fn highlights_around_the_pointer() {
    let empty = FieldLocationContents::Empty;
    assert_eq!(highlight_field_location(0, 0, &empty), FieldLocationHighlight::Available);
    assert_eq!(highlight_field_location(0, 0, &FieldLocationContents::Goal), FieldLocationHighlight::Unavailable);
    assert_eq!(highlight_field_location(1, -1, &empty), FieldLocationHighlight::Nearby);
    assert_eq!(highlight_field_location(2, 0, &empty), FieldLocationHighlight::Off);
    assert_eq!(highlight_sprite(FieldLocationHighlight::Unavailable), (4, true));
    assert_eq!(highlight_sprite(FieldLocationHighlight::Off), (5, false));
}

#[test]
fn new_enemies_start_whole() {
    let bundle = EnemyBundle::new(EnemyType::Gnat, 1, "gnat".to_string());
    assert_eq!(bundle.health.max_health, 5);
    assert_eq!(bundle.health.health, 5);
    assert!(bundle.enemy_impulses.move_towards.is_none());
    let (spawned, tint, sprite) = spawn_enemy(EnemyType::Buster, 2, "buster".to_string());
    assert_eq!(spawned.health.max_health, 30);
    assert_eq!(tint, Rgb { r: 1000, g: 384, b: 384 });
    assert_eq!(sprite, 3);
}

#[test]
fn standard_field_layout() {
    let entities: Vec<u64> = (0..(FIELD_WIDTH * FIELD_HEIGHT) as u64).collect();
    let f = spawn_field(&entities);
    assert!(matches!(f.get_contents(&FieldLocation(0, 10)), FieldLocationContents::Spawner));
    assert!(matches!(f.get_contents(&FieldLocation(28, 10)), FieldLocationContents::Goal));
    assert!(f.get_contents(&FieldLocation(5, 5)).is_empty());
    assert_eq!(*f.get_entity(&FieldLocation(3, 2)), 2 * 29 + 3);
    assert_eq!(f.get_goal(), FieldLocation(28, 10));
}

#[test]
fn neighbor_towers_and_upgrades() {
    let f = corridor_field();
    let towers = f.get_neighbor_towers(&FieldLocation(1, 1));
    assert_eq!(towers.len(), 2);
    assert_eq!(towers[0].0, 50);
    assert!(f.get_upgraded_tower_at_location(&FieldLocation(1, 0), TowerClass::Wall).is_some());
    assert!(f.get_upgraded_tower_at_location(&FieldLocation(1, 0), TowerClass::Attack).is_none());
    assert!(f.get_upgraded_tower_at_location(&FieldLocation(0, 0), TowerClass::Wall).is_none());
}

#[test]
fn helper_texts_and_keys() {
    assert_eq!(get_helper_name(TowerClass::BigBomb), "BigBombHelper");
    assert_eq!(tower_flavor(TowerClass::Silo), "Resupplies neighbors.");
    assert_eq!(tower_class_for_key(3), Some(TowerClass::Triple));
    assert_eq!(tower_class_for_key(9), None);
}

#[test]
fn seekers_and_thieves_pay_flat_costs() {
    assert!(uses_flat_costs(EnemyType::Seeker));
    assert!(uses_flat_costs(EnemyType::Thief));
    assert!(!uses_flat_costs(EnemyType::Basic));
    assert!(!uses_flat_costs(EnemyType::Buster));
}
