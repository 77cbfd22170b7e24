//! The rules the simulation applies between ticks: what a death, a goal hit,
//! a theft or a resupply changes, how health and tile highlights are shown,
//! and how a new enemy is made.
use vstd::prelude::*;
use crate::economy::{MAX_RESOURCE, WaveStatus, resources_ok};
use crate::enemies::{EnemyType, Health, death_tile_cost_of, mineral_loot_of, tech_loot_of};
use crate::enemy_nodes::{EnemyBehaviorTree, EnemyImpulses};
use crate::field::{Field, FieldLocation, FieldLocationContents};
use crate::pathing::{can_path_from_spawn_if, is_route};
use crate::towers::{Rgb, TowerClass, TowerCooldowns, level_tint, tower_level_color};

verus! {

/// Settles the death of an enemy on `tile`. A buster whose death would cut
/// the goal off from the spawner comes back to life instead; any other enemy
/// marks its tile with its death cost and leaves its loot. Reports whether
/// the enemy is gone.
pub fn resolve_enemy_death(
    field: &mut Field,
    wave_status: &mut WaveStatus,
    enemy_type: EnemyType,
    health: &mut Health,
    tile: FieldLocation,
) -> (gone: bool)
    requires
        old(field).wf(),
        old(field).in_bounds(tile),
        old(field).cost_at(tile) + 100 <= i32::MAX,
        resources_ok(*old(wave_status)),
        old(wave_status).minerals + 3 <= MAX_RESOURCE,
        old(wave_status).dust + 1 <= MAX_RESOURCE,
        old(wave_status).tech + 1 <= MAX_RESOURCE,
    ensures
        final(field).wf(),
        ({
            let revived = enemy_type == EnemyType::Buster && !(exists|p: Seq<FieldLocation>|
                is_route(*old(field), old(field).spec_source(), p, Some(tile)));
            &&& gone == !revived
            &&& revived ==> *final(health) == (Health {
                max_health: old(health).max_health,
                health: old(health).max_health,
                dead: false,
            }) && final(field).costs() == old(field).costs() && *final(wave_status)
                == *old(wave_status)
            &&& !revived ==> final(field).costs() == old(field).costs().update(
                old(field).index_of(tile),
                (old(field).cost_at(tile) + death_tile_cost_of(enemy_type)) as i32,
            ) && final(wave_status).minerals == old(wave_status).minerals + mineral_loot_of(
                enemy_type,
            ) && final(wave_status).dust == old(wave_status).dust + 1 && final(wave_status).tech
                == old(wave_status).tech + tech_loot_of(enemy_type) && *final(health)
                == *old(health)
        }),
        final(field).locations() == old(field).locations(),
{
    if enemy_type == EnemyType::Buster && !can_path_from_spawn_if(field, tile) {
        health.revive();
        false
    } else {
        field.increment_tile_cost(&tile, enemy_type.get_death_tile_cost());
        wave_status.loot(&enemy_type);
        true
    }
}

/// An enemy reached the goal: the player loses one health. Reports whether
/// this ends the game.
pub fn hit_goal(wave_status: &mut WaveStatus) -> (game_over: bool)
    requires
        old(wave_status).health > i32::MIN,
    ensures
        final(wave_status).health == old(wave_status).health - 1,
        game_over == (old(wave_status).health - 1 <= 0 && !old(wave_status).game_over),
        final(wave_status).game_over == (old(wave_status).game_over || game_over),
        final(wave_status).minerals == old(wave_status).minerals,
        final(wave_status).wave_id == old(wave_status).wave_id,
{
    wave_status.health = wave_status.health - 1;
    wave_status.drain_game_over()
}

/// A thief that attacks a tower while wounded takes a round of its
/// ammunition, when it has one, and heals by one.
pub fn steal_ammo(enemy_type: EnemyType, health: &mut Health, tower: &mut TowerCooldowns)
    ensures
        ({
            let before = *old(health);
            let after = *final(health);
            let steals = enemy_type == EnemyType::Thief && before.health < before.max_health
                && old(tower).ammo_left > 0;
            &&& steals ==> final(tower).ammo_left == old(tower).ammo_left - 1 && after.health
                == before.health + 1
            &&& !steals ==> *final(tower) == *old(tower) && *final(health) == *old(health)
        }),
        final(health).max_health == old(health).max_health,
        final(health).dead == old(health).dead,
        final(tower).max_ammo == old(tower).max_ammo,
{
    if enemy_type == EnemyType::Thief && health.health < health.max_health {
        if tower.use_ammo() {
            health.health = health.health + 1;
        }
    }
}

/// A tower passes one round to a neighbor that has room for it. Reports
/// whether it did.
pub fn assist_tower(giver: &mut TowerCooldowns, receiver: &mut TowerCooldowns) -> (passed: bool)
    ensures
        passed == (old(receiver).ammo_left < old(receiver).max_ammo && old(giver).ammo_left > 0),
        passed ==> final(giver).ammo_left == old(giver).ammo_left - 1 && final(receiver).ammo_left
            == old(receiver).ammo_left + 1,
        !passed ==> *final(giver) == *old(giver) && *final(receiver) == *old(receiver),
        final(giver).max_ammo == old(giver).max_ammo,
        final(receiver).max_ammo == old(receiver).max_ammo,
{
    if !receiver.can_gain_ammo() {
        return false;
    }
    if giver.use_ammo() {
        receiver.ammo_left = receiver.ammo_left + 1;
        true
    } else {
        false
    }
}

/// How one crystal of the health display is drawn.
#[derive(Debug, Clone, Copy, PartialEq, Eq, Structural)]
pub enum CrystalState {
    Full,
    Half,
    Hidden,
}

/// Two health points per crystal: crystals below `health / 2` are full, the
/// next one is half full when health is odd, the rest are hidden.
pub open spec fn crystal_state(health: int, crystal: int) -> CrystalState {
    let full = if health >= 0 {
        health / 2
    } else {
        -((-health) / 2)
    };
    let has_half = health >= 0 && health % 2 == 1;
    if crystal < full {
        CrystalState::Full
    } else if crystal == full && has_half {
        CrystalState::Half
    } else {
        CrystalState::Hidden
    }
}

pub fn health_crystal(health: i32, crystal: i32) -> (r: CrystalState)
    ensures
        r == crystal_state(health as int, crystal as int),
{
    let full = health / 2;
    let has_half = health % 2 == 1;
    if crystal < full {
        CrystalState::Full
    } else if crystal == full && has_half {
        CrystalState::Half
    } else {
        CrystalState::Hidden
    }
}

/// How a tile is highlighted around the tile under the pointer.
#[derive(Debug, Clone, Copy, PartialEq, Eq, Structural)]
pub enum FieldLocationHighlight {
    Off,
    Nearby,
    Available,
    Unavailable,
    Filled,
}

/// The highlight of a tile at offset `(dx, dy)` from the pointed tile: the
/// pointed tile shows whether a tower fits, the eight around it are nearby.
pub open spec fn highlight_of(dx: int, dy: int, contents: FieldLocationContents) -> FieldLocationHighlight {
    if dx == 0 && dy == 0 {
        if contents is Empty {
            FieldLocationHighlight::Available
        } else {
            FieldLocationHighlight::Unavailable
        }
    } else if -1 <= dx <= 1 && -1 <= dy <= 1 {
        FieldLocationHighlight::Nearby
    } else {
        FieldLocationHighlight::Off
    }
}

pub fn highlight_field_location(dx: i32, dy: i32, contents: &FieldLocationContents) -> (r:
    FieldLocationHighlight)
    ensures
        r == highlight_of(dx as int, dy as int, *contents),
{
    if dx == 0 && dy == 0 {
        if contents.is_empty() {
            FieldLocationHighlight::Available
        } else {
            FieldLocationHighlight::Unavailable
        }
    } else if -1 <= dx && dx <= 1 && -1 <= dy && dy <= 1 {
        FieldLocationHighlight::Nearby
    } else {
        FieldLocationHighlight::Off
    }
}

/// The sprite that draws a highlight and whether it is shown.
pub fn highlight_sprite(highlight: FieldLocationHighlight) -> (r: (usize, bool))
    ensures
        r.0 == match highlight {
            FieldLocationHighlight::Available => 3usize,
            FieldLocationHighlight::Unavailable => 4,
            _ => 5,
        },
        r.1 == !(highlight == FieldLocationHighlight::Filled || highlight == FieldLocationHighlight::Off),
{
    let index: usize = match highlight {
        FieldLocationHighlight::Available => 3,
        FieldLocationHighlight::Unavailable => 4,
        _ => 5,
    };
    let visible = match highlight {
        FieldLocationHighlight::Filled | FieldLocationHighlight::Off => false,
        _ => true,
    };
    (index, visible)
}

/// Everything a new enemy starts with.
pub struct EnemyBundle {
    pub enemy_type: EnemyType,
    pub enemy_behavior_tree: EnemyBehaviorTree,
    pub enemy_impulses: EnemyImpulses,
    pub health: Health,
}

impl EnemyBundle {
    /// A new enemy of `enemy_type` with `boosts` boosts whose tree is named `name`.
    pub fn new(enemy_type: EnemyType, boosts: i32, name: String) -> (bundle: Self)
        requires
            0 <= boosts <= 1000,
        ensures
            bundle.enemy_type == enemy_type,
            bundle.health.max_health == crate::enemies::max_health_of(enemy_type, boosts as int),
            bundle.health.health == bundle.health.max_health,
            !bundle.health.dead,
            bundle.enemy_impulses.move_towards is None,
            bundle.enemy_impulses.attack_tower is None,
            bundle.enemy_behavior_tree.0@ is Sequence,
            bundle.enemy_behavior_tree.0@->Sequence_name == name@,
    {
        EnemyBundle {
            enemy_type,
            enemy_impulses: EnemyImpulses::new(),
            enemy_behavior_tree: enemy_type.get_behavior_tree(name),
            health: enemy_type.get_health(boosts),
        }
    }
}

/// The tint of an enemy with `boosts` boosts.
pub fn boost_color(boosts: i32) -> (r: Rgb)
    ensures
        r == level_tint(boosts as int),
{
    tower_level_color(boosts)
}

/// A new enemy: its components, its tint and its sprite.
pub fn spawn_enemy(enemy_type: EnemyType, boosts: i32, name: String) -> (r: (EnemyBundle, Rgb, usize))
    requires
        0 <= boosts <= 1000,
    ensures
        r.0.enemy_type == enemy_type,
        r.0.health.max_health == crate::enemies::max_health_of(enemy_type, boosts as int),
        r.0.enemy_behavior_tree.0@->Sequence_name == name@,
        r.1 == level_tint(boosts as int),
        r.2 == r.0.enemy_type.spec_sprite(),
{
    (EnemyBundle::new(enemy_type, boosts, name), boost_color(boosts), enemy_type.get_sprite())
}

/// Seekers and thieves pay 1 for every tile; other enemies pay each tile's
/// cost. The two kinds keep separate route caches.
pub fn uses_flat_costs(enemy_type: EnemyType) -> (r: bool)
    ensures
        r == (enemy_type == EnemyType::Seeker || enemy_type == EnemyType::Thief),
{
    match enemy_type {
        EnemyType::Seeker | EnemyType::Thief => true,
        _ => false,
    }
}

/// The name of the icon that stands for a tower class.
pub fn get_helper_name(tower_type: TowerClass) -> (r: &'static str)
    ensures
        r@ == match tower_type {
            TowerClass::Attack => "AttackHelper"@,
            TowerClass::Silo => "SiloHelper"@,
            TowerClass::Burst => "BurstHelper"@,
            TowerClass::Triple => "TripleHelper"@,
            TowerClass::BigBomb => "BigBombHelper"@,
            TowerClass::Wall => "WallHelper"@,
        },
{
    match tower_type {
        TowerClass::Attack => "AttackHelper",
        TowerClass::Silo => "SiloHelper",
        TowerClass::Burst => "BurstHelper",
        TowerClass::Triple => "TripleHelper",
        TowerClass::BigBomb => "BigBombHelper",
        TowerClass::Wall => "WallHelper",
    }
}

/// One line that describes a tower class.
pub fn tower_flavor(tower_type: TowerClass) -> (r: &'static str)
    ensures
        r@ == match tower_type {
            TowerClass::Attack => "Simple gun tower."@,
            TowerClass::Silo => "Resupplies neighbors."@,
            TowerClass::Burst => "Fires in four directions."@,
            TowerClass::Triple => "Fires 3-shot bursts."@,
            TowerClass::BigBomb => "Fires really big shots."@,
            TowerClass::Wall => "Transfers ammo from silos."@,
        },
{
    match tower_type {
        TowerClass::Attack => "Simple gun tower.",
        TowerClass::Silo => "Resupplies neighbors.",
        TowerClass::Burst => "Fires in four directions.",
        TowerClass::Triple => "Fires 3-shot bursts.",
        TowerClass::BigBomb => "Fires really big shots.",
        TowerClass::Wall => "Transfers ammo from silos.",
    }
}

/// The tower class that number key `key` selects, if any.
pub fn tower_class_for_key(key: u8) -> (r: Option<TowerClass>)
    ensures
        r == match key {
            1 => Some(TowerClass::Attack),
            2 => Some(TowerClass::Silo),
            3 => Some(TowerClass::Triple),
            4 => Some(TowerClass::BigBomb),
            5 => Some(TowerClass::Wall),
            _ => None::<TowerClass>,
        },
{
    match key {
        1 => Some(TowerClass::Attack),
        2 => Some(TowerClass::Silo),
        3 => Some(TowerClass::Triple),
        4 => Some(TowerClass::BigBomb),
        5 => Some(TowerClass::Wall),
        _ => None,
    }
}

} // verus!
