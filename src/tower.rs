//! Tower types, their prices and their combat statistics by level.
use vstd::prelude::*;
use crate::timer::{Timer, TimerMode};

verus! {

/// Highest upgrade level of a tower.
pub const MAX_TOWER_LEVEL: u8 = 3;
pub const INITIAL_PLAYER_GOLD: u16 = 95;
pub const MAX_LIFES: u8 = 30;
/// Shortest attack interval of any tower, in milliseconds.
pub const MIN_ATTACK_INTERVAL_MS: u64 = 100;
pub const MAX_TOWER_DAMAGE: u16 = 500;

/// The kinds of tower; each has three upgrade levels.
#[derive(Clone, Copy, Debug, PartialEq, Eq, Structural, Hash)]
pub enum TowerType {
    Lich,
    Zigurat,
    Electric,
}

/// `b` raised to the power `e`.
pub open spec fn power(b: int, e: nat) -> int
    decreases e,
{
    if e == 0 { 1 } else { b * power(b, (e - 1) as nat) }
}

/// `n / d` rounded to the nearest integer, halves rounded up.
pub open spec fn rounded(n: int, d: int) -> int {
    (2 * n + d) / (2 * d)
}

/// Base cost, base damage and base attack interval (milliseconds) of a type.
pub open spec fn base_cost(t: TowerType) -> int {
    match t {
        TowerType::Lich => 40,
        TowerType::Zigurat => 100,
        TowerType::Electric => 180,
    }
}

pub open spec fn base_damage(t: TowerType) -> int {
    match t {
        TowerType::Lich => 15,
        TowerType::Zigurat => 40,
        TowerType::Electric => 150,
    }
}

pub open spec fn base_interval_ms(t: TowerType) -> int {
    match t {
        TowerType::Lich => 500,
        TowerType::Zigurat => 400,
        TowerType::Electric => 1200,
    }
}

/// Price of a tower at a level: the base cost at level 1, otherwise the base
/// cost times 1.3 to the power of the level, rounded.
pub open spec fn cost_spec(t: TowerType, level: nat) -> int {
    if level == 1 {
        base_cost(t)
    } else {
        rounded(base_cost(t) * power(13, level), power(10, level))
    }
}

/// Attack damage at a level: base damage times 1.8 to the power of the level,
/// rounded and kept within 1..=500.
pub open spec fn damage_spec(t: TowerType, level: nat) -> int {
    let d = rounded(base_damage(t) * power(18, level), power(10, level));
    if d < 1 { 1 } else if d > MAX_TOWER_DAMAGE { MAX_TOWER_DAMAGE as int } else { d }
}

/// Attack interval at a level, in milliseconds: the base interval times 0.85
/// to the power of the level, rounded, and at least 100.
pub open spec fn interval_spec(t: TowerType, level: nat) -> int {
    let i = rounded(base_interval_ms(t) * power(85, level), power(100, level));
    if i < MIN_ATTACK_INTERVAL_MS { MIN_ATTACK_INTERVAL_MS as int } else { i }
}

/// The combat statistics of a tower of some type and level.
#[derive(Clone, Copy, Debug)]
pub struct TowerInfo {
    pub attack_speed: Timer,
    pub attack_damage: u16,
    pub level: u8,
    pub tower_type: TowerType,
}

/// `b` to the power `e` for small exponents.
fn small_power(b: u64, e: u8) -> (r: u64)
    requires
        b <= 100,
        e <= MAX_TOWER_LEVEL,
    ensures
        r == power(b as int, e as nat),
        r <= 1_000_000,
        b >= 1 ==> r >= 1,
{
    let mut r: u64 = 1;
    let mut i: u8 = 0;
    while i < e
        invariant
            i <= e,
            e <= MAX_TOWER_LEVEL,
            b <= 100,
            r == power(b as int, i as nat),
            r <= power(100, i as nat),
            b >= 1 ==> r >= 1,
        decreases e - i,
    {
        proof {
            reveal_with_fuel(power, 4);
            assert(r * b <= power(100, i as nat) * 100) by (nonlinear_arith)
                requires r <= power(100, i as nat), b <= 100, r >= 0;
            assert(power(100, (i + 1) as nat) <= 1_000_000);
            assert(b >= 1 && r >= 1 ==> r * b >= 1) by (nonlinear_arith);
            assert(power(b as int, (i + 1) as nat) == b * power(b as int, i as nat));
            assert(r * b == b * r) by (nonlinear_arith);
        }
        r = r * b;
        i = i + 1;
    }
    proof { reveal_with_fuel(power, 4); }
    r
}

impl TowerType {
    fn base_values(&self) -> (r: (u64, u64, u64))
        ensures
            r.0 == base_cost(*self),
            r.1 == base_damage(*self),
            r.2 == base_interval_ms(*self),
    {
        match self {
            TowerType::Lich => (40, 15, 500),
            TowerType::Zigurat => (100, 40, 400),
            TowerType::Electric => (180, 150, 1200),
        }
    }

    /// Returns the cost of a tower based on its type and level.
    pub fn to_cost(&self, level: u8) -> (r: u16)
        requires
            level <= MAX_TOWER_LEVEL,
        ensures
            r == cost_spec(*self, level as nat),
    {
        let (base, _, _) = self.base_values();
        if level == 1 {
            return base as u16;
        }
        let num = base * small_power(13, level);
        let den = small_power(10, level);
        proof {
            reveal_with_fuel(power, 4);
            if level == 0 {
                assert(den == 1 && num == base);
            } else if level == 2 {
                assert(den == 100 && num == base * 169);
            } else {
                assert(den == 1000 && num == base * 2197);
            }
            assert(base <= 180);
            assert((2 * num + den) / (2 * den) <= 400) by (nonlinear_arith)
                requires
                    base <= 180,
                    (den == 1 && num == base) || (den == 100 && num == base * 169)
                        || (den == 1000 && num == base * 2197);
        }
        ((2 * num + den) / (2 * den)) as u16
    }

    /// The statistics of a tower of this type at a level.
    pub fn to_tower_data(&self, level: u8) -> (r: TowerInfo)
        requires
            level <= MAX_TOWER_LEVEL,
        ensures
            r.attack_damage == damage_spec(*self, level as nat),
            r.attack_speed.wf(),
            r.attack_speed.duration_ms == interval_spec(*self, level as nat),
            r.attack_speed == Timer::new_spec(interval_spec(*self, level as nat) as u64, TimerMode::Repeating),
            r.attack_speed.mode == TimerMode::Repeating,
            r.attack_speed.elapsed_ms == 0,
            !r.attack_speed.paused,
            !r.attack_speed.just_finished_spec(),
            r.level == level,
            r.tower_type == *self,
    {
        let (_, base_dmg, base_ms) = self.base_values();
        let num = base_dmg * small_power(18, level);
        let den = small_power(10, level);
        proof {
            reveal_with_fuel(power, 4);
            assert(level == 0 || level == 1 || level == 2 || level == 3);
        }
        let d = (2 * num + den) / (2 * den);
        let attack_damage: u16 = if d < 1 { 1 } else if d > 500 { MAX_TOWER_DAMAGE } else { d as u16 };
        let inum = base_ms * small_power(85, level);
        let iden = small_power(100, level);
        let i = (2 * inum + iden) / (2 * iden);
        let interval = if i < MIN_ATTACK_INTERVAL_MS { MIN_ATTACK_INTERVAL_MS } else { i };
        TowerInfo {
            attack_speed: Timer::new(interval, TimerMode::Repeating),
            attack_damage,
            level,
            tower_type: *self,
        }
    }
}

/// Bound on the magnitude of a tower coordinate.
pub const TOWER_COORD_LIMIT: i64 = 1_000_000_000;

/// A tower placed on the map.
#[derive(Clone, Copy, Debug)]
pub struct Tower {
    pub x: i64,
    pub y: i64,
    pub tower_type: TowerType,
    pub level: u8,
    pub attack_damage: u16,
    /// Completes once per attack.
    pub attack_speed: Timer,
}

impl Tower {
    pub open spec fn wf(&self) -> bool {
        &&& -TOWER_COORD_LIMIT <= self.x <= TOWER_COORD_LIMIT
        &&& -TOWER_COORD_LIMIT <= self.y <= TOWER_COORD_LIMIT
        &&& self.attack_speed.wf()
    }

    /// A tower of a type and level placed at (x, y), with the statistics of
    /// `to_tower_data`.
    pub fn new(x: i64, y: i64, tower_type: TowerType, level: u8) -> (r: Tower)
        requires
            -TOWER_COORD_LIMIT <= x <= TOWER_COORD_LIMIT,
            -TOWER_COORD_LIMIT <= y <= TOWER_COORD_LIMIT,
            level <= MAX_TOWER_LEVEL,
        ensures
            r.wf(),
            r.x == x,
            r.y == y,
            r.tower_type == tower_type,
            r.level == level,
            r.attack_damage == damage_spec(tower_type, level as nat),
            r.attack_speed.duration_ms == interval_spec(tower_type, level as nat),
            r.attack_speed == Timer::new_spec(interval_spec(tower_type, level as nat) as u64, TimerMode::Repeating),
            r.attack_speed.mode == TimerMode::Repeating,
            r.attack_speed.elapsed_ms == 0,
            !r.attack_speed.paused,
            !r.attack_speed.just_finished_spec(),
    {
        let info = tower_type.to_tower_data(level);
        Tower {
            x,
            y,
            tower_type,
            level,
            attack_damage: info.attack_damage,
            attack_speed: info.attack_speed,
        }
    }
}

} // verus!
