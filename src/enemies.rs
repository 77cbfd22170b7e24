//! Enemy kinds with their stats and loot, hit points, and projectile kinds.
use vstd::prelude::*;

verus! {

/// The kinds of enemy a wave can hold.
#[derive(Debug, Clone, Copy, PartialEq, Eq, Structural)]
pub enum EnemyType {
    Basic,
    Seeker,
    Fast,
    Gnat,
    Buster,
    Thief,
    Mugger,
}

pub open spec fn base_health(t: EnemyType) -> int {
    match t {
        EnemyType::Basic => 3,
        EnemyType::Seeker => 4,
        EnemyType::Gnat => 2,
        EnemyType::Fast => 5,
        EnemyType::Buster => 10,
        EnemyType::Thief | EnemyType::Mugger => 5,
    }
}

pub open spec fn health_per_boost(t: EnemyType) -> int {
    match t {
        EnemyType::Basic => 2,
        EnemyType::Seeker => 3,
        EnemyType::Gnat => 3,
        EnemyType::Fast => 2,
        EnemyType::Buster => 10,
        EnemyType::Thief | EnemyType::Mugger => 2,
    }
}

/// The hit points of an enemy of kind `t` spawned with `boosts` boosts.
pub open spec fn max_health_of(t: EnemyType, boosts: int) -> int {
    base_health(t) + health_per_boost(t) * boosts
}

pub open spec fn mineral_loot_of(t: EnemyType) -> int {
    match t {
        EnemyType::Basic | EnemyType::Fast | EnemyType::Gnat => 1,
        EnemyType::Seeker => 2,
        EnemyType::Buster | EnemyType::Thief | EnemyType::Mugger => 3,
    }
}

pub open spec fn tech_loot_of(t: EnemyType) -> int {
    match t {
        EnemyType::Basic | EnemyType::Seeker | EnemyType::Fast | EnemyType::Gnat => 0,
        EnemyType::Buster | EnemyType::Thief | EnemyType::Mugger => 1,
    }
}

/// The traversal cost an enemy of kind `t` adds to the tile it dies on.
pub open spec fn death_tile_cost_of(t: EnemyType) -> int {
    match t {
        EnemyType::Basic | EnemyType::Fast | EnemyType::Thief => 0,
        EnemyType::Gnat => 50,
        EnemyType::Seeker | EnemyType::Mugger => 50,
        EnemyType::Buster => 100,
    }
}

/// Movement speed in pixels per second.
pub open spec fn speed_of(t: EnemyType) -> int {
    match t {
        EnemyType::Basic => 128,
        EnemyType::Seeker => 128,
        EnemyType::Fast | EnemyType::Thief | EnemyType::Gnat | EnemyType::Mugger => 196,
        EnemyType::Buster => 96,
    }
}

impl EnemyType {
    /// Hit points for an enemy of this kind spawned with `boosts` boosts.
    pub fn get_health(&self, boosts: i32) -> (r: Health)
        requires
            i32::MIN <= max_health_of(*self, boosts as int) <= i32::MAX,
        ensures
            r.max_health == max_health_of(*self, boosts as int),
            r.health == r.max_health,
            !r.dead,
    {
        let b = boosts as i64;
        let health: i64 = match self {
            EnemyType::Basic => 3 + b * 2,
            EnemyType::Seeker => 4 + b * 3,
            EnemyType::Gnat => 2 + b * 3,
            EnemyType::Fast => 5 + b * 2,
            EnemyType::Buster => 10 + b * 10,
            EnemyType::Thief | EnemyType::Mugger => 5 + b * 2,
        };
        let health = health as i32;
        Health { max_health: health, health, dead: false }
    }

    /// The sprite an enemy of this kind is drawn with.
    pub open spec fn spec_sprite(self) -> usize {
        match self {
            EnemyType::Basic => 0usize,
            EnemyType::Seeker => 1,
            EnemyType::Fast => 2,
            EnemyType::Buster => 3,
            EnemyType::Thief => 4,
            EnemyType::Gnat => 5,
            EnemyType::Mugger => 6,
        }
    }

    pub fn get_sprite(&self) -> (r: usize)
        ensures
            r == self.spec_sprite(),
            r == match *self {
                EnemyType::Basic => 0usize,
                EnemyType::Seeker => 1,
                EnemyType::Fast => 2,
                EnemyType::Buster => 3,
                EnemyType::Thief => 4,
                EnemyType::Gnat => 5,
                EnemyType::Mugger => 6,
            },
    {
        match self {
            EnemyType::Basic => 0,
            EnemyType::Seeker => 1,
            EnemyType::Fast => 2,
            EnemyType::Buster => 3,
            EnemyType::Thief => 4,
            EnemyType::Gnat => 5,
            EnemyType::Mugger => 6,
        }
    }

    /// Movement speed in pixels per second.
    pub fn get_speed(&self) -> (r: i32)
        ensures
            r == speed_of(*self),
    {
        match self {
            EnemyType::Basic => 128,
            EnemyType::Seeker => 128,
            EnemyType::Fast | EnemyType::Thief | EnemyType::Gnat | EnemyType::Mugger => 196,
            EnemyType::Buster => 96,
        }
    }

    pub fn get_death_tile_cost(&self) -> (r: i32)
        ensures
            r == death_tile_cost_of(*self),
    {
        match self {
            EnemyType::Basic | EnemyType::Fast | EnemyType::Thief => 0,
            EnemyType::Gnat => 50,
            EnemyType::Seeker | EnemyType::Mugger => 50,
            EnemyType::Buster => 100,
        }
    }

    pub fn get_mineral_loot(&self) -> (r: i32)
        ensures
            r == mineral_loot_of(*self),
    {
        match self {
            EnemyType::Basic | EnemyType::Fast | EnemyType::Gnat => 1,
            EnemyType::Seeker => 2,
            EnemyType::Buster | EnemyType::Thief | EnemyType::Mugger => 3,
        }
    }

    pub fn get_dust_loot(&self) -> (r: i32)
        ensures
            r == 1,
    {
        1
    }

    pub fn get_tech_loot(&self) -> (r: i32)
        ensures
            r == tech_loot_of(*self),
    {
        match self {
            EnemyType::Basic | EnemyType::Seeker | EnemyType::Fast | EnemyType::Gnat => 0,
            EnemyType::Buster | EnemyType::Thief | EnemyType::Mugger => 1,
        }
    }
}

/// Hit points of an agent.
#[derive(Debug, Clone, Copy, PartialEq, Eq, Structural)]
pub struct Health {
    pub max_health: i32,
    pub health: i32,
    pub dead: bool,
}

impl Health {
    /// Marks the agent dead once its hit points are gone; reports whether it is.
    pub fn dies(&mut self) -> (died: bool)
        ensures
            died == (old(self).health <= 0),
            *final(self) == if died {
                Health { dead: true, ..*old(self) }
            } else {
                *old(self)
            },
    {
        if self.health <= 0 {
            self.dead = true;
            true
        } else {
            false
        }
    }

    /// Restores full hit points and life.
    pub fn revive(&mut self)
        ensures
            *final(self) == (Health {
                max_health: old(self).max_health,
                health: old(self).max_health,
                dead: false,
            }),
    {
        self.health = self.max_health;
        self.dead = false;
    }
}

/// A kind of projectile: the sprite it is drawn with and the damage it deals.
#[derive(Debug, Clone, Copy, PartialEq, Eq, Structural)]
pub enum BulletType {
    Basic { sprite_index: usize, damage: i32 },
}

impl BulletType {
    pub fn get_sprite_index(&self) -> (r: usize)
        ensures
            r == self->sprite_index,
    {
        match self {
            BulletType::Basic { sprite_index, .. } => *sprite_index,
        }
    }

    pub fn damage(&self) -> (r: i32)
        ensures
            r == self->damage,
    {
        match self {
            BulletType::Basic { damage, .. } => *damage,
        }
    }
}

} // verus!
