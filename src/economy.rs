//! The player's side of the simulation: resources, the wave clock, the
//! spawn schedule of each wave, and the price of building, upgrading and
//! selling towers.
use vstd::prelude::*;
use rand::Rng;
use crate::enemies::{EnemyType, mineral_loot_of, tech_loot_of};
use crate::towers::{
    TowerClass, TowerType, dust_cost_of, mineral_cost_of, mineral_refund_of, tech_cost_of,
    tech_refund_of,
};

verus! {

/// The length of a wave, in milliseconds.
pub const WAVE_MS: i64 = 10000;

/// The part of a wave over which its enemies are released, in milliseconds.
pub const SPAWN_SPREAD_MS: i64 = 3000;

/// Resource counts stay below this, so that any price or loot fits.
pub const MAX_RESOURCE: i32 = 1_000_000_000;

/// The largest wave number (either side of zero) whose budget, `2 * wave_id
/// + 20`, fits the counters.
pub const MAX_WAVE: i32 = 1_073_741_813;

/// The state of a game: the wave clock, the enemies still to release in
/// this wave, and the player's health and resources.
pub struct WaveStatus {
    /// Milliseconds left in the current wave.
    pub time_left_ms: i64,
    pub spawned: Vec<(EnemyType, i32)>,
    pub spawns: Vec<(EnemyType, i32)>,
    pub game_over: bool,
    pub wave_id: i32,
    pub health: i32,
    pub minerals: i32,
    pub dust: i32,
    pub tech: i32,
    pub tower_type: TowerClass,
}

/// Resources that stay within the bounds that keep every price and loot in
/// range.
pub open spec fn resources_ok(w: WaveStatus) -> bool {
    &&& 0 <= w.minerals <= MAX_RESOURCE
    &&& 0 <= w.dust <= MAX_RESOURCE
    &&& 0 <= w.tech <= MAX_RESOURCE
}

/// How much the upgrade of a tower at `level` multiplies its price by.
pub open spec fn upgrade_factor(level: int) -> int {
    1 + level * level
}

impl Default for WaveStatus {
    fn default() -> (r: Self)
        ensures
            r.time_left_ms == WAVE_MS,
            r.spawned@.len() == 0,
            r.spawns@.len() == 0,
            !r.game_over,
            r.wave_id == 0,
            r.health == 20,
            r.minerals == 6,
            r.dust == 2,
            r.tech == 0,
            r.tower_type == TowerClass::Attack,
    {
        WaveStatus {
            time_left_ms: WAVE_MS,
            spawned: Vec::new(),
            spawns: Vec::new(),
            game_over: false,
            wave_id: 0,
            health: 20,
            minerals: 6,
            dust: 2,
            tech: 0,
            tower_type: TowerClass::Attack,
        }
    }
}

/// Relies on `rand::Rng::gen_range` with the thread-local generator: the
/// value lies in `0..n` (an empty range, which would panic, is ruled out).
#[verifier::external_body]
fn random_below(n: usize) -> (r: usize)
    requires
        n > 0,
    ensures
        r < n,
{
    rand::thread_rng().gen_range(0..n)
}

/// The fixed schedule of the scripted waves, `None` for generated ones.
pub open spec fn scripted_wave(wave_id: int) -> Option<Seq<(EnemyType, i32)>> {
    let basic = (EnemyType::Basic, 0i32);
    let basic1 = (EnemyType::Basic, 1i32);
    let seeker = (EnemyType::Seeker, 0i32);
    let fast = (EnemyType::Fast, 0i32);
    let thief = (EnemyType::Thief, 0i32);
    if wave_id == 1 {
        Some(seq![basic])
    } else if wave_id == 2 {
        Some(seq![basic, basic])
    } else if wave_id == 3 {
        Some(seq![basic, basic, seeker])
    } else if wave_id == 4 {
        Some(seq![basic, basic, basic, seeker])
    } else if wave_id == 5 {
        Some(seq![basic, basic, basic, seeker, seeker, seeker])
    } else if wave_id == 6 {
        Some(seq![basic, basic, basic, thief, basic, basic, basic, thief])
    } else if wave_id == 7 {
        Some(seq![basic1, basic1, basic1, (EnemyType::Fast, 1i32), thief, fast, fast, thief])
    } else if wave_id == 8 {
        Some(
            seq![
                basic1,
                basic1,
                basic1,
                basic1,
                (EnemyType::Gnat, 0i32),
                (EnemyType::Gnat, 0i32),
                fast,
                fast,
                fast,
                fast,
                (EnemyType::Seeker, 1i32),
                (EnemyType::Seeker, 1i32),
            ],
        )
    } else if wave_id == 9 {
        Some(
            seq![
                basic1,
                basic1,
                basic1,
                basic1,
                (EnemyType::Basic, 2i32),
                (EnemyType::Basic, 2i32),
                (EnemyType::Buster, 0i32),
                (EnemyType::Buster, 0i32),
                (EnemyType::Buster, 0i32),
            ],
        )
    } else if wave_id == 31 {
        Some(Seq::new(36, |i: int| (EnemyType::Basic, 5i32)))
    } else {
        None
    }
}

/// The budget of a generated wave.
pub open spec fn wave_budget(wave_id: int) -> int {
    2 * wave_id + (if wave_id > 20 {
        10int
    } else {
        0
    }) + (if wave_id > 26 {
        10int
    } else {
        0
    })
}

/// What one roll of a twelve-sided die buys for a wave with `budget` left:
/// the enemies added and their price.
pub open spec fn roll_purchase(roll: int, budget: int) -> (Seq<(EnemyType, i32)>, int) {
    let basic = (seq![(EnemyType::Basic, 0i32)], 1int);
    if roll == 9 || roll == 8 {
        if budget > 3 {
            (seq![(EnemyType::Buster, 0i32)], 3int)
        } else {
            basic
        }
    } else if roll == 7 || roll == 6 {
        (seq![(EnemyType::Seeker, 0i32)], 1int)
    } else if roll == 5 || roll == 4 {
        if budget > 2 {
            (seq![(EnemyType::Fast, 0i32)], 2int)
        } else {
            basic
        }
    } else if roll == 10 || roll == 3 {
        if budget > 2 {
            (seq![(EnemyType::Thief, 0i32)], 2int)
        } else {
            basic
        }
    } else if roll == 11 {
        if budget > 2 {
            (seq![(EnemyType::Mugger, 0i32)], 2int)
        } else {
            basic
        }
    } else if roll == 2 || roll == 1 {
        (seq![(EnemyType::Gnat, 0i32), (EnemyType::Gnat, 0i32), (EnemyType::Gnat, 0i32)], 1int)
    } else {
        basic
    }
}

/// The enemies that `roll` buys with `budget` left, and their price.
pub fn buy_for_roll(roll: usize, budget: i32) -> (r: (Vec<(EnemyType, i32)>, i32))
    ensures
        r.0@ == roll_purchase(roll as int, budget as int).0,
        r.1 == roll_purchase(roll as int, budget as int).1,
{
    let r: (Vec<(EnemyType, i32)>, i32) = match roll {
        9 | 8 => if budget > 3 {
            (vec![(EnemyType::Buster, 0)], 3)
        } else {
            (vec![(EnemyType::Basic, 0)], 1)
        },
        7 | 6 => (vec![(EnemyType::Seeker, 0)], 1),
        5 | 4 => if budget > 2 {
            (vec![(EnemyType::Fast, 0)], 2)
        } else {
            (vec![(EnemyType::Basic, 0)], 1)
        },
        10 | 3 => if budget > 2 {
            (vec![(EnemyType::Thief, 0)], 2)
        } else {
            (vec![(EnemyType::Basic, 0)], 1)
        },
        11 => if budget > 2 {
            (vec![(EnemyType::Mugger, 0)], 2)
        } else {
            (vec![(EnemyType::Basic, 0)], 1)
        },
        2 | 1 => (vec![(EnemyType::Gnat, 0), (EnemyType::Gnat, 0), (EnemyType::Gnat, 0)], 1),
        _ => (vec![(EnemyType::Basic, 0)], 1),
    };
    assert(r.0@ =~= roll_purchase(roll as int, budget as int).0);
    r
}

fn append_spawns(wave: &mut Vec<(EnemyType, i32)>, more: &Vec<(EnemyType, i32)>)
    ensures
        final(wave)@ == old(wave)@ + more@,
{
    let mut i: usize = 0;
    while i < more.len()
        invariant
            i <= more@.len(),
            wave@ == old(wave)@ + more@.subrange(0, i as int),
        decreases more@.len() - i,
    {
        wave.push(more[i]);
        i = i + 1;
        assert(wave@ =~= old(wave)@ + more@.subrange(0, i as int));
    }
    assert(more@.subrange(0, more@.len() as int) =~= more@);
}

/// Boosts the enemy at `index` once more and pays for it: the budget drops
/// by its new boost count. Returns the budget left.
pub fn boost_spawn(wave: &mut Vec<(EnemyType, i32)>, index: usize, budget: i32) -> (left: i32)
    requires
        index < old(wave)@.len(),
        0 <= old(wave)@[index as int].1 < i32::MAX,
        budget - old(wave)@[index as int].1 - 1 >= i32::MIN,
    ensures
        final(wave)@ == old(wave)@.update(
            index as int,
            (old(wave)@[index as int].0, (old(wave)@[index as int].1 + 1) as i32),
        ),
        left == budget - (old(wave)@[index as int].1 + 1),
{
    let (kind, boosts) = wave[index];
    wave.set(index, (kind, boosts + 1));
    budget - (boosts + 1)
}

/// The enemies of wave `wave_id`: the scripted ones, or a random mix bought
/// with the wave's budget, some of them boosted.
pub fn get_spawns(wave_id: i32) -> (r: Vec<(EnemyType, i32)>)
    requires
        -MAX_WAVE <= wave_id <= MAX_WAVE,
    ensures
        scripted_wave(wave_id as int) is Some ==> r@ == scripted_wave(wave_id as int)->0,
        scripted_wave(wave_id as int) is None && wave_budget(wave_id as int) > 0 ==> r@.len() > 0,
        scripted_wave(wave_id as int) is None && wave_budget(wave_id as int) <= 0 ==> r@.len() == 0,
        scripted_wave(wave_id as int) is None ==> forall|i: int|
            0 <= i < r@.len() ==> (#[trigger] r@[i]).1 >= 0,
{
    let basic = (EnemyType::Basic, 0i32);
    let basic1 = (EnemyType::Basic, 1i32);
    let seeker = (EnemyType::Seeker, 0i32);
    let fast = (EnemyType::Fast, 0i32);
    let thief = (EnemyType::Thief, 0i32);
    let scripted: Option<Vec<(EnemyType, i32)>> = match wave_id {
        1 => Some(vec![basic]),
        2 => Some(vec![basic, basic]),
        3 => Some(vec![basic, basic, seeker]),
        4 => Some(vec![basic, basic, basic, seeker]),
        5 => Some(vec![basic, basic, basic, seeker, seeker, seeker]),
        6 => Some(vec![basic, basic, basic, thief, basic, basic, basic, thief]),
        7 => Some(vec![basic1, basic1, basic1, (EnemyType::Fast, 1i32), thief, fast, fast, thief]),
        8 => Some(
            vec![
                basic1,
                basic1,
                basic1,
                basic1,
                (EnemyType::Gnat, 0i32),
                (EnemyType::Gnat, 0i32),
                fast,
                fast,
                fast,
                fast,
                (EnemyType::Seeker, 1i32),
                (EnemyType::Seeker, 1i32),
            ],
        ),
        9 => Some(
            vec![
                basic1,
                basic1,
                basic1,
                basic1,
                (EnemyType::Basic, 2i32),
                (EnemyType::Basic, 2i32),
                (EnemyType::Buster, 0i32),
                (EnemyType::Buster, 0i32),
                (EnemyType::Buster, 0i32),
            ],
        ),
        31 => {
            let mut wave: Vec<(EnemyType, i32)> = Vec::new();
            let mut i: usize = 0;
            while i < 36
                invariant
                    i <= 36,
                    wave@.len() == i,
                    forall|j: int| 0 <= j < i ==> #[trigger] wave@[j] == (EnemyType::Basic, 5i32),
                decreases 36 - i,
            {
                wave.push((EnemyType::Basic, 5));
                i = i + 1;
            }
            assert(wave@ =~= Seq::new(36, |i: int| (EnemyType::Basic, 5i32)));
            Some(wave)
        },
        _ => None,
    };
    match scripted {
        Some(wave) => {
            assert(wave@ =~= scripted_wave(wave_id as int)->0);
            return wave;
        },
        None => {},
    }
    let mut wave: Vec<(EnemyType, i32)> = Vec::new();
    let mut wave_cost: i32 = wave_id * 2;
    if wave_id > 20 {
        wave_cost = wave_cost + 10;
    }
    if wave_id > 26 {
        wave_cost = wave_cost + 10;
    }
    while wave_cost > 0
        invariant
            -MAX_WAVE <= wave_id <= MAX_WAVE,
            -(2 * MAX_WAVE + 20) <= wave_cost <= wave_budget(wave_id as int),
            wave_cost < wave_budget(wave_id as int) ==> wave@.len() > 0,
            wave_budget(wave_id as int) <= 0 ==> wave@.len() == 0,
            forall|i: int|
                0 <= i < wave@.len() ==> 0 <= (#[trigger] wave@[i]).1 <= wave_budget(wave_id as int)
                    - wave_cost,
        decreases wave_cost + 2 * MAX_WAVE + 20,
    {
        let ghost start_cost = wave_cost;
        let ghost start_wave = wave@;
        let (bought, price) = buy_for_roll(random_below(12), wave_cost);
        append_spawns(&mut wave, &bought);
        wave_cost = wave_cost - price;
        assert(wave@.len() > 0 && 0 <= wave_cost < start_cost);
        assert forall|i: int| 0 <= i < wave@.len() implies 0 <= (#[trigger] wave@[i]).1
            <= wave_budget(wave_id as int) - wave_cost by {
            if i < start_wave.len() {
                assert(wave@[i] == start_wave[i]);
            }
        }
        if wave_cost > 2 {
            let boosted = random_below(wave.len());
            wave_cost = boost_spawn(&mut wave, boosted, wave_cost);
        }
        assert(wave_cost < start_cost);
        assert forall|i: int| 0 <= i < wave@.len() implies 0 <= (#[trigger] wave@[i]).1
            <= wave_budget(wave_id as int) - wave_cost by {
        }
        if wave_cost > 20 {
            let boosted = random_below(wave.len());
            wave_cost = boost_spawn(&mut wave, boosted, wave_cost);
        }
    }
    wave
}

/// The sound of the wave's end, by position in the cycle of 31 waves.
pub open spec fn sting_path(k: int) -> Seq<char> {
    if k == 1 || k == 2 {
        "stings/ChoirSaprano.ogg"@
    } else if k == 3 {
        "stings/ChoirSapranoEb.ogg"@
    } else if k == 4 || k == 5 {
        "stings/ChoirTenor.ogg"@
    } else if k == 6 {
        "stings/ChoirTenorEb.ogg"@
    } else if k == 7 || k == 8 {
        "stings/ChoirBass.ogg"@
    } else if k == 9 {
        "stings/ChoirBassEb.ogg"@
    } else if k == 10 || k == 11 {
        "stings/FmBass.ogg"@
    } else if k == 12 {
        "stings/FmBassEb.ogg"@
    } else if k == 13 || k == 14 {
        "stings/ElectricGrand.ogg"@
    } else if k == 15 {
        "stings/ElectricGrandEb.ogg"@
    } else if k == 16 || k == 17 {
        "stings/SaxSynth.ogg"@
    } else if k == 18 {
        "stings/SaxSynthEb.ogg"@
    } else if k == 19 || k == 20 {
        "stings/Harmonica.ogg"@
    } else if k == 21 {
        "stings/HarmonicaEb.ogg"@
    } else if k == 22 || k == 23 {
        "stings/Sawtooth.ogg"@
    } else if k == 24 {
        "stings/SawtoothEb.ogg"@
    } else if k == 25 || k == 26 || k == 28 || k == 29 {
        "stings/SquareWave.ogg"@
    } else if k == 27 || k == 30 {
        "stings/SquareWaveEb.ogg"@
    } else {
        "stings/VictorySting.ogg"@
    }
}

/// The hint shown during wave `wave_id`, if any.
pub open spec fn tutorial_text(wave_id: int) -> Option<Seq<char>> {
    if wave_id == 0 {
        Some("Place a tower near the center line by left-clicking."@)
    } else if wave_id == 1 {
        Some("Towers have ammo that refreshes every 10 seconds.\nPlace more towers."@)
    } else if wave_id == 2 {
        Some("You can also place ammo silos next to towers.\nPress '2' to switch to silos."@)
    } else if wave_id == 3 {
        Some("Some enemies will place markers when they die.\nOther enemies will avoid those markers."@)
    } else if wave_id == 4 {
        Some("You can desconstruct a tower by right-clicking.\nYou will lose some of the build cost."@)
    } else if wave_id == 5 {
        Some("Thieves will steal ammo from nearby towers to heal themselves."@)
    } else if wave_id == 6 {
        Some("You can upgrade towers by buying one\non top of an existing tower.\nThis is more expensive for higher levels."@)
    } else if wave_id == 7 {
        Some("Enemies may spawn with a different color\n and boosted health."@)
    } else if wave_id == 8 {
        Some("Tunnel Busters cannot die in tunnels.\nThey also have more health."@)
    } else if wave_id == 10 {
        Some("That's the end of the tutorial!\nCan you make it to round 30?"@)
    } else if wave_id == 16 {
        Some("That was round 15! Keep on going!"@)
    } else if wave_id == 22 {
        Some("That was round 21! Almost there!"@)
    } else if wave_id == 28 {
        Some("That was round 27! Just 30 more seconds!"@)
    } else if wave_id == 31 {
        Some("That was round 30! Congratulations, and thanks for playing!"@)
    } else if wave_id == 62 {
        Some("That was round 61! How are you still playing??"@)
    } else {
        None
    }
}

impl WaveStatus {
    /// The hint shown during the current wave, if any.
    pub fn get_tutorial(&self) -> (r: Option<&'static str>)
        ensures
            match r {
                Some(text) => tutorial_text(self.wave_id as int) == Some(text@),
                None => tutorial_text(self.wave_id as int) is None,
            },
    {
        match self.wave_id {
            0 => Some("Place a tower near the center line by left-clicking."),
            1 => Some("Towers have ammo that refreshes every 10 seconds.\nPlace more towers."),
            2 => Some("You can also place ammo silos next to towers.\nPress '2' to switch to silos."),
            3 => Some("Some enemies will place markers when they die.\nOther enemies will avoid those markers."),
            4 => Some("You can desconstruct a tower by right-clicking.\nYou will lose some of the build cost."),
            5 => Some("Thieves will steal ammo from nearby towers to heal themselves."),
            6 => Some("You can upgrade towers by buying one\non top of an existing tower.\nThis is more expensive for higher levels."),
            7 => Some("Enemies may spawn with a different color\n and boosted health."),
            8 => Some("Tunnel Busters cannot die in tunnels.\nThey also have more health."),
            10 => Some("That's the end of the tutorial!\nCan you make it to round 30?"),
            16 => Some("That was round 15! Keep on going!"),
            22 => Some("That was round 21! Almost there!"),
            28 => Some("That was round 27! Just 30 more seconds!"),
            31 => Some("That was round 30! Congratulations, and thanks for playing!"),
            62 => Some("That was round 61! How are you still playing??"),
            _ => None,
        }
    }

    /// Whole seconds left in the wave, rounded down.
    pub fn get_countdown_value(&self) -> (r: i64)
        ensures
            r == self.time_left_ms / 1000,
    {
        match self.time_left_ms.checked_div_euclid(1000) {
            Some(seconds) => seconds,
            None => 0,
        }
    }

    /// How many enemies the wave holds, released or not.
    pub fn get_total_spawns(&self) -> (r: usize)
        requires
            self.spawned@.len() + self.spawns@.len() <= usize::MAX,
        ensures
            r == self.spawned@.len() + self.spawns@.len(),
    {
        self.spawned.len() + self.spawns.len()
    }

    /// The sound that ends wave `wave_id`: the waves run through a cycle of
    /// 31 sounds.
    pub fn get_sting_for(&self, wave_id: i32) -> (r: &'static str)
        requires
            wave_id >= 1,
        ensures
            r@ == sting_path((wave_id - 1) % 31 + 1),
    {
        let k = (wave_id - 1) % 31 + 1;
        if k == 1 || k == 2 {
            "stings/ChoirSaprano.ogg"
        } else if k == 3 {
            "stings/ChoirSapranoEb.ogg"
        } else if k == 4 || k == 5 {
            "stings/ChoirTenor.ogg"
        } else if k == 6 {
            "stings/ChoirTenorEb.ogg"
        } else if k == 7 || k == 8 {
            "stings/ChoirBass.ogg"
        } else if k == 9 {
            "stings/ChoirBassEb.ogg"
        } else if k == 10 || k == 11 {
            "stings/FmBass.ogg"
        } else if k == 12 {
            "stings/FmBassEb.ogg"
        } else if k == 13 || k == 14 {
            "stings/ElectricGrand.ogg"
        } else if k == 15 {
            "stings/ElectricGrandEb.ogg"
        } else if k == 16 || k == 17 {
            "stings/SaxSynth.ogg"
        } else if k == 18 {
            "stings/SaxSynthEb.ogg"
        } else if k == 19 || k == 20 {
            "stings/Harmonica.ogg"
        } else if k == 21 {
            "stings/HarmonicaEb.ogg"
        } else if k == 22 || k == 23 {
            "stings/Sawtooth.ogg"
        } else if k == 24 {
            "stings/SawtoothEb.ogg"
        } else if k == 25 || k == 26 || k == 28 || k == 29 {
            "stings/SquareWave.ogg"
        } else if k == 27 || k == 30 {
            "stings/SquareWaveEb.ogg"
        } else {
            "stings/VictorySting.ogg"
        }
    }

    /// The sound that ends the current wave.
    pub fn get_sting(&self) -> (r: &'static str)
        requires
            self.wave_id >= 1,
        ensures
            r@ == sting_path((self.wave_id - 1) % 31 + 1),
    {
        self.get_sting_for(self.wave_id)
    }

    /// Releases the next enemy of the wave once its moment has come: the
    /// wave's enemies leave one by one, evenly spread over its first three
    /// seconds.
    pub fn drain_timed_spawn(&mut self) -> (r: Option<(EnemyType, i32)>)
        requires
            old(self).spawned@.len() + old(self).spawns@.len() <= 1_000_000,
            -WAVE_MS <= old(self).time_left_ms <= WAVE_MS,
        ensures
            ({
                let total = old(self).spawned@.len() + old(self).spawns@.len();
                let progress = WAVE_MS - old(self).time_left_ms;
                let due = old(self).spawns@.len() > 0 && progress * total / (SPAWN_SPREAD_MS as int)
                    >= old(self).spawned@.len();
                &&& due ==> r == Some(old(self).spawns@.last())
                    && final(self).spawns@ == old(self).spawns@.drop_last()
                    && final(self).spawned@ == old(self).spawned@.push(old(self).spawns@.last())
                &&& !due ==> r is None && final(self).spawns@ == old(self).spawns@
                    && final(self).spawned@ == old(self).spawned@
            }),
            final(self).time_left_ms == old(self).time_left_ms,
            final(self).wave_id == old(self).wave_id,
            final(self).health == old(self).health,
            final(self).minerals == old(self).minerals,
            final(self).dust == old(self).dust,
            final(self).tech == old(self).tech,
            final(self).game_over == old(self).game_over,
            final(self).tower_type == old(self).tower_type,
    {
        if self.spawns.len() == 0 {
            return None;
        }
        let total = (self.spawned.len() + self.spawns.len()) as i64;
        let progress = WAVE_MS - self.time_left_ms;
        assert(-20000 * 1_000_000 <= progress * total <= 20000 * 1_000_000) by (nonlinear_arith)
            requires
                0 <= progress <= 20000,
                0 <= total <= 1_000_000,
        ;
        let spawn_index = match (progress * total).checked_div_euclid(SPAWN_SPREAD_MS) {
            Some(q) => q,
            None => 0,
        };
        if spawn_index >= self.spawned.len() as i64 {
            match self.spawns.pop() {
                Some(new_enemy) => {
                    self.spawned.push(new_enemy);
                    Some(new_enemy)
                },
                None => None,
            }
        } else {
            None
        }
    }

    /// Ends the wave once its time is up: the clock restarts, the next wave
    /// number begins and its enemies are scheduled. Reports whether it did.
    pub fn drain_wave_end(&mut self) -> (ended: bool)
        requires
            -MAX_WAVE <= old(self).wave_id < MAX_WAVE,
            old(self).time_left_ms >= -WAVE_MS,
        ensures
            ended == (old(self).time_left_ms <= 0),
            ended ==> final(self).time_left_ms == old(self).time_left_ms + WAVE_MS
                && final(self).wave_id == old(self).wave_id + 1 && final(self).spawned@.len() == 0
                && (scripted_wave(final(self).wave_id as int) is Some ==> final(self).spawns@
                == scripted_wave(final(self).wave_id as int)->0),
            !ended ==> final(self).time_left_ms == old(self).time_left_ms && final(self).wave_id
                == old(self).wave_id && final(self).spawned@ == old(self).spawned@
                && final(self).spawns@ == old(self).spawns@,
            final(self).health == old(self).health,
            final(self).minerals == old(self).minerals,
            final(self).dust == old(self).dust,
            final(self).tech == old(self).tech,
            final(self).game_over == old(self).game_over,
            final(self).tower_type == old(self).tower_type,
    {
        if self.time_left_ms <= 0 {
            self.time_left_ms = self.time_left_ms + WAVE_MS;
            self.wave_id = self.wave_id + 1;
            self.spawned.clear();
            self.spawns = get_spawns(self.wave_id);
            true
        } else {
            false
        }
    }

    /// Reports, once only, that the player's health has run out.
    pub fn drain_game_over(&mut self) -> (over: bool)
        ensures
            over == (old(self).health <= 0 && !old(self).game_over),
            final(self).game_over == (old(self).game_over || over),
            final(self).health == old(self).health,
            final(self).wave_id == old(self).wave_id,
            final(self).minerals == old(self).minerals,
            final(self).dust == old(self).dust,
            final(self).tech == old(self).tech,
    {
        if self.health <= 0 && !self.game_over {
            self.game_over = true;
            true
        } else {
            false
        }
    }

    /// Collects the loot of a defeated enemy.
    pub fn loot(&mut self, enemy_type: &EnemyType)
        requires
            resources_ok(*old(self)),
            old(self).minerals + 3 <= MAX_RESOURCE,
            old(self).dust + 1 <= MAX_RESOURCE,
            old(self).tech + 1 <= MAX_RESOURCE,
        ensures
            final(self).minerals == old(self).minerals + mineral_loot_of(*enemy_type),
            final(self).dust == old(self).dust + 1,
            final(self).tech == old(self).tech + tech_loot_of(*enemy_type),
            final(self).wave_id == old(self).wave_id,
            final(self).health == old(self).health,
    {
        self.minerals = self.minerals + enemy_type.get_mineral_loot();
        self.dust = self.dust + enemy_type.get_dust_loot();
        self.tech = self.tech + enemy_type.get_tech_loot();
    }

    /// Pays for a new tower of `tower_type` when every resource suffices;
    /// reports whether it did.
    pub fn buy(&mut self, tower_type: TowerClass) -> (bought: bool)
        requires
            resources_ok(*old(self)),
        ensures
            bought == (old(self).minerals >= mineral_cost_of(tower_type) && old(self).dust
                >= dust_cost_of(tower_type) && old(self).tech >= tech_cost_of(tower_type)),
            bought ==> final(self).minerals == old(self).minerals - mineral_cost_of(tower_type)
                && final(self).dust == old(self).dust - dust_cost_of(tower_type)
                && final(self).tech == old(self).tech - tech_cost_of(tower_type),
            !bought ==> final(self).minerals == old(self).minerals && final(self).dust
                == old(self).dust && final(self).tech == old(self).tech,
            resources_ok(*final(self)),
            final(self).wave_id == old(self).wave_id,
            final(self).health == old(self).health,
    {
        let minerals = tower_type.get_mineral_cost();
        let dust = tower_type.get_dust_cost();
        let tech = tower_type.get_tech_cost();
        if self.minerals >= minerals && self.dust >= dust && self.tech >= tech {
            self.minerals = self.minerals - minerals;
            self.dust = self.dust - dust;
            self.tech = self.tech - tech;
            true
        } else {
            false
        }
    }

    /// Pays for upgrading a tower: the class's price times `1 + level²`.
    /// Reports whether every resource sufficed.
    pub fn upgrade(&mut self, tower_type: TowerType) -> (upgraded: bool)
        requires
            resources_ok(*old(self)),
            0 <= tower_type.level <= 10000,
        ensures
            ({
                let f = upgrade_factor(tower_type.level as int);
                let minerals = mineral_cost_of(tower_type.class) * f;
                let dust = dust_cost_of(tower_type.class) * f;
                let tech = tech_cost_of(tower_type.class) * f;
                &&& upgraded == (old(self).minerals >= minerals && old(self).dust >= dust
                    && old(self).tech >= tech)
                &&& upgraded ==> final(self).minerals == old(self).minerals - minerals
                    && final(self).dust == old(self).dust - dust && final(self).tech
                    == old(self).tech - tech
                &&& !upgraded ==> final(self).minerals == old(self).minerals && final(self).dust
                    == old(self).dust && final(self).tech == old(self).tech
            }),
            resources_ok(*final(self)),
            final(self).wave_id == old(self).wave_id,
            final(self).health == old(self).health,
    {
        let level = tower_type.level;
        assert(1 <= 1 + level * level <= 100_000_001) by (nonlinear_arith)
            requires
                0 <= level <= 10000,
        ;
        let factor = 1 + level * level;
        let mc = tower_type.class.get_mineral_cost();
        let dc = tower_type.class.get_dust_cost();
        let tc = tower_type.class.get_tech_cost();
        assert(0 <= mc * factor <= 600_000_006 && 0 <= dc * factor <= 500_000_005 && 0 <= tc * factor
            <= 200_000_002) by (nonlinear_arith)
            requires
                1 <= factor <= 100_000_001,
                0 <= mc <= 6,
                0 <= dc <= 5,
                0 <= tc <= 2,
        ;
        let minerals = mc * factor;
        let dust = dc * factor;
        let tech = tc * factor;
        if self.minerals >= minerals && self.dust >= dust && self.tech >= tech {
            self.minerals = self.minerals - minerals;
            self.dust = self.dust - dust;
            self.tech = self.tech - tech;
            true
        } else {
            false
        }
    }

    /// Refunds a tower that is taken down.
    pub fn sell(&mut self, tower_type: TowerType)
        requires
            resources_ok(*old(self)),
            old(self).minerals + 6 <= MAX_RESOURCE,
            old(self).dust + 6 <= MAX_RESOURCE,
            old(self).tech + 2 <= MAX_RESOURCE,
        ensures
            final(self).minerals == old(self).minerals + mineral_refund_of(tower_type.class),
            final(self).dust == old(self).dust + mineral_cost_of(tower_type.class),
            final(self).tech == old(self).tech + tech_refund_of(tower_type.class),
            resources_ok(*final(self)),
            final(self).wave_id == old(self).wave_id,
            final(self).health == old(self).health,
    {
        self.minerals = self.minerals + tower_type.get_mineral_deconstruct();
        self.dust = self.dust + tower_type.get_dust_deconstruct();
        self.tech = self.tech + tower_type.get_tech_deconstruct();
    }
}

} // verus!
