//! Tower classes, their price tables and their ammunition and cooldown state.
use vstd::prelude::*;

verus! {

/// The kinds of tower a player can build.
#[derive(Debug, Clone, Copy, PartialEq, Eq, Structural)]
pub enum TowerClass {
    Attack,
    Silo,
    Burst,
    Triple,
    BigBomb,
    Wall,
}

/// A built tower: its class and upgrade level.
#[derive(Debug, Clone, Copy, PartialEq, Eq, Structural)]
pub struct TowerType {
    pub class: TowerClass,
    pub level: i32,
}

/// A color as red, green and blue components in thousandths.
#[derive(Debug, Clone, Copy, PartialEq, Eq, Structural)]
pub struct Rgb {
    pub r: u16,
    pub g: u16,
    pub b: u16,
}

pub open spec fn mineral_cost_of(class: TowerClass) -> int {
    match class {
        TowerClass::Attack => 3,
        TowerClass::Silo => 1,
        TowerClass::Burst => 2,
        TowerClass::Triple => 6,
        TowerClass::BigBomb => 2,
        TowerClass::Wall => 2,
    }
}

pub open spec fn dust_cost_of(class: TowerClass) -> int {
    match class {
        TowerClass::Attack => 1,
        TowerClass::Silo => 2,
        TowerClass::Burst => 1,
        TowerClass::Triple => 3,
        TowerClass::BigBomb => 5,
        TowerClass::Wall => 0,
    }
}

pub open spec fn tech_cost_of(class: TowerClass) -> int {
    match class {
        TowerClass::Attack => 0,
        TowerClass::Silo => 0,
        TowerClass::Burst => 1,
        TowerClass::Triple => 1,
        TowerClass::BigBomb => 2,
        TowerClass::Wall => 0,
    }
}

/// Minerals returned when a tower of `class` is taken down.
pub open spec fn mineral_refund_of(class: TowerClass) -> int {
    if mineral_cost_of(class) - 1 > 0 {
        mineral_cost_of(class) - 1
    } else {
        0
    }
}

/// Tech returned when a tower of `class` is taken down.
pub open spec fn tech_refund_of(class: TowerClass) -> int {
    if tech_cost_of(class) - 2 > 0 {
        tech_cost_of(class) - 2
    } else {
        0
    }
}

/// The ammunition a fresh tower of `class` at `level` starts with.
pub open spec fn starting_ammo(class: TowerClass, level: int) -> int {
    match class {
        TowerClass::Attack | TowerClass::Burst => 3 + level * level,
        TowerClass::Silo => 5 + 5 * level,
        TowerClass::Triple => (3 + level) * (3 + level),
        TowerClass::BigBomb => 1,
        TowerClass::Wall => 0,
    }
}

/// The ammunition a tower of `class` at `level` can hold.
pub open spec fn ammo_capacity(class: TowerClass, level: int) -> int {
    match class {
        TowerClass::Wall => 1,
        _ => starting_ammo(class, level),
    }
}

/// The largest tower level whose ammunition counts fit the counters.
pub const MAX_TOWER_LEVEL: i32 = 40000;

impl TowerClass {
    pub fn is_blocking(&self) -> (r: bool)
        ensures
            r,
    {
        true
    }

    pub fn get_sprite_index(&self) -> (r: usize)
        ensures
            r == match *self {
                TowerClass::Attack => 0usize,
                TowerClass::Silo => 8,
                TowerClass::Burst => 16,
                TowerClass::Triple => 1,
                TowerClass::BigBomb => 2,
                TowerClass::Wall => 3,
            },
    {
        match self {
            TowerClass::Attack => 0,
            TowerClass::Silo => 8,
            TowerClass::Burst => 16,
            TowerClass::Triple => 1,
            TowerClass::BigBomb => 2,
            TowerClass::Wall => 3,
        }
    }

    pub fn get_mineral_cost(&self) -> (r: i32)
        ensures
            r == mineral_cost_of(*self),
    {
        match self {
            TowerClass::Attack => 3,
            TowerClass::Silo => 1,
            TowerClass::Burst => 2,
            TowerClass::Triple => 6,
            TowerClass::BigBomb => 2,
            TowerClass::Wall => 2,
        }
    }

    pub fn get_dust_cost(&self) -> (r: i32)
        ensures
            r == dust_cost_of(*self),
    {
        match self {
            TowerClass::Attack => 1,
            TowerClass::Silo => 2,
            TowerClass::Burst => 1,
            TowerClass::Triple => 3,
            TowerClass::BigBomb => 5,
            TowerClass::Wall => 0,
        }
    }

    pub fn get_tech_cost(&self) -> (r: i32)
        ensures
            r == tech_cost_of(*self),
    {
        match self {
            TowerClass::Attack => 0,
            TowerClass::Silo => 0,
            TowerClass::Burst => 1,
            TowerClass::Triple => 1,
            TowerClass::BigBomb => 2,
            TowerClass::Wall => 0,
        }
    }

    /// Minerals returned when a tower of this class is taken down: the
    /// mineral cost less one, and never negative.
    pub fn get_mineral_deconstruct(&self) -> (r: i32)
        ensures
            r == if mineral_cost_of(*self) - 1 > 0 {
                mineral_cost_of(*self) - 1
            } else {
                0
            },
    {
        let cost = self.get_mineral_cost() - 1;
        if cost > 0 {
            cost
        } else {
            0
        }
    }

    /// Dust returned when a tower of this class is taken down: as much as its
    /// mineral cost.
    pub fn get_dust_deconstruct(&self) -> (r: i32)
        ensures
            r == mineral_cost_of(*self),
    {
        self.get_mineral_cost()
    }

    /// Tech returned when a tower of this class is taken down: the tech cost
    /// less two, and never negative.
    pub fn get_tech_deconstruct(&self) -> (r: i32)
        ensures
            r == if tech_cost_of(*self) - 2 > 0 {
                tech_cost_of(*self) - 2
            } else {
                0
            },
    {
        let cost = self.get_tech_cost() - 2;
        if cost > 0 {
            cost
        } else {
            0
        }
    }

    /// Fresh ammunition and cooldown state for a tower of this class.
    pub fn get_cooldowns(&self, level: i32) -> (r: TowerCooldowns)
        requires
            0 <= level <= MAX_TOWER_LEVEL,
        ensures
            r.time_since_shot == 0,
            r.time_since_hit == 0,
            r.ammo_left == starting_ammo(*self, level as int),
            r.max_ammo == ammo_capacity(*self, level as int),
    {
        assert(0 <= level * level <= 1_600_000_000) by (nonlinear_arith)
            requires
                0 <= level <= 40000,
        ;
        assert(0 <= (3 + level) * (3 + level) <= 1_601_000_000) by (nonlinear_arith)
            requires
                0 <= level <= 40000,
        ;
        let ammo_left: i32 = match self {
            TowerClass::Attack | TowerClass::Burst => 3 + level * level,
            TowerClass::Silo => 5 + 5 * level,
            TowerClass::Triple => (3 + level) * (3 + level),
            TowerClass::BigBomb => 1,
            TowerClass::Wall => 0,
        };
        let max_ammo: i32 = match self {
            TowerClass::Wall => 1,
            _ => ammo_left,
        };
        TowerCooldowns { time_since_shot: 0, time_since_hit: 0, ammo_left, max_ammo }
    }
}

impl TowerType {
    pub fn get_cooldowns(&self) -> (r: TowerCooldowns)
        requires
            0 <= self.level <= MAX_TOWER_LEVEL,
        ensures
            r.time_since_shot == 0,
            r.time_since_hit == 0,
            r.ammo_left == starting_ammo(self.class, self.level as int),
            r.max_ammo == ammo_capacity(self.class, self.level as int),
    {
        self.class.get_cooldowns(self.level)
    }

    pub fn get_mineral_deconstruct(&self) -> (r: i32)
        ensures
            r == if mineral_cost_of(self.class) - 1 > 0 {
                mineral_cost_of(self.class) - 1
            } else {
                0
            },
    {
        self.class.get_mineral_deconstruct()
    }

    pub fn get_dust_deconstruct(&self) -> (r: i32)
        ensures
            r == mineral_cost_of(self.class),
    {
        self.class.get_dust_deconstruct()
    }

    pub fn get_tech_deconstruct(&self) -> (r: i32)
        ensures
            r == if tech_cost_of(self.class) - 2 > 0 {
                tech_cost_of(self.class) - 2
            } else {
                0
            },
    {
        self.class.get_tech_deconstruct()
    }
}

/// A tower's ammunition and the time since it last fired and was hit, in
/// milliseconds.
#[derive(Debug, Clone, Copy, PartialEq, Eq, Structural)]
pub struct TowerCooldowns {
    pub time_since_shot: u64,
    pub time_since_hit: u64,
    pub ammo_left: i32,
    pub max_ammo: i32,
}

impl TowerCooldowns {
    /// Lets `delta_ms` milliseconds pass.
    pub fn pass_time(&mut self, delta_ms: u64)
        requires
            old(self).time_since_shot + delta_ms <= u64::MAX,
            old(self).time_since_hit + delta_ms <= u64::MAX,
        ensures
            *final(self) == (TowerCooldowns {
                time_since_shot: (old(self).time_since_shot + delta_ms) as u64,
                time_since_hit: (old(self).time_since_hit + delta_ms) as u64,
                ..*old(self)
            }),
    {
        self.time_since_shot = self.time_since_shot + delta_ms;
        self.time_since_hit = self.time_since_hit + delta_ms;
    }

    pub fn has_ammo(&self) -> (r: bool)
        ensures
            r == (self.ammo_left > 0),
    {
        self.ammo_left > 0
    }

    pub fn can_gain_ammo(&self) -> (r: bool)
        ensures
            r == (self.ammo_left < self.max_ammo),
    {
        self.ammo_left < self.max_ammo
    }

    /// Spends one round when there is one; reports whether it did.
    pub fn use_ammo(&mut self) -> (used: bool)
        ensures
            used == (old(self).ammo_left > 0),
            *final(self) == if used {
                TowerCooldowns { ammo_left: (old(self).ammo_left - 1) as i32, ..*old(self) }
            } else {
                *old(self)
            },
    {
        if self.ammo_left > 0 {
            self.ammo_left = self.ammo_left - 1;
            true
        } else {
            false
        }
    }
}

/// The tint that marks a tower's level (and an enemy's boosts).
pub open spec fn level_tint(level: int) -> Rgb {
    if level == 0 {
        Rgb { r: 1000, g: 1000, b: 1000 }
    } else if level == 1 {
        Rgb { r: 430, g: 1000, b: 384 }
    } else if level == 2 {
        Rgb { r: 1000, g: 384, b: 384 }
    } else if level == 3 {
        Rgb { r: 1000, g: 1000, b: 477 }
    } else if level == 4 {
        Rgb { r: 635, g: 592, b: 1000 }
    } else {
        Rgb { r: 1000, g: 0, b: 477 }
    }
}

pub fn tower_level_color(boosts: i32) -> (r: Rgb)
    ensures
        r == level_tint(boosts as int),
{
    match boosts {
        0 => Rgb { r: 1000, g: 1000, b: 1000 },
        1 => Rgb { r: 430, g: 1000, b: 384 },
        2 => Rgb { r: 1000, g: 384, b: 384 },
        3 => Rgb { r: 1000, g: 1000, b: 477 },
        4 => Rgb { r: 635, g: 592, b: 1000 },
        _ => Rgb { r: 1000, g: 0, b: 477 },
    }
}

} // verus!
