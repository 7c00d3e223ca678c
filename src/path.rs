//! The fixed enemy route and the movement of path-following enemies.
use vstd::prelude::*;

verus! {

/// Thousandths of a world unit per world unit.
pub const UNIT: i64 = 1000;
/// Where enemies enter the map.
pub const SPAWN_X: i64 = 610_000;
pub const SPAWN_Y: i64 = 70_000;
/// Coordinates that the route's turning points are made of: the route runs
/// west from the spawn to `TURN_EAST_X`, south to `TURN_LOW_Y`, west to
/// `TURN_MID_X`, north to `SPAWN_Y`, west to `TURN_WEST_X`, then south to
/// `TURN_END_Y`.
pub const TURN_EAST_X: i64 = 260_000;
pub const TURN_LOW_Y: i64 = -205_000;
pub const TURN_MID_X: i64 = -230_000;
pub const TURN_WEST_X: i64 = -455_000;
pub const TURN_END_Y: i64 = -375_000;
/// Bound on the magnitude of any enemy coordinate.
pub const COORD_LIMIT: i64 = 1_000_000_000_000;
/// Bound on an enemy's speed, in thousandths of a unit per second.
pub const MAX_ENEMY_SPEED: u64 = 300_000;
/// Bound on the length of one simulation step, in milliseconds.
pub const MAX_DELTA_MS: u64 = 1_000_000;

pub open spec fn break_point_x(i: int) -> int {
    if i == 0 { 260_000 }
    else if i == 1 { 260_000 }
    else if i == 2 { -230_000 }
    else if i == 3 { -230_000 }
    else if i == 4 { -455_000 }
    else { -455_000 }
}

pub open spec fn break_point_y(i: int) -> int {
    if i == 0 { 70_000 }
    else if i == 1 { -205_000 }
    else if i == 2 { -205_000 }
    else if i == 3 { 70_000 }
    else if i == 4 { 70_000 }
    else { -375_000 }
}

/// Coordinates of the turning point with the given index (0..=5).
pub fn break_point(i: u8) -> (r: (i64, i64))
    requires
        i < 6,
    ensures
        r.0 == break_point_x(i as int),
        r.1 == break_point_y(i as int),
{
    match i {
        0 => (TURN_EAST_X, SPAWN_Y),
        1 => (TURN_EAST_X, TURN_LOW_Y),
        2 => (TURN_MID_X, TURN_LOW_Y),
        3 => (TURN_MID_X, SPAWN_Y),
        4 => (TURN_WEST_X, SPAWN_Y),
        _ => (TURN_WEST_X, TURN_END_Y),
    }
}

/// Direction of travel along one leg of the route.
#[derive(Clone, Copy, Debug, PartialEq, Eq, Structural)]
pub enum Heading {
    West,
    South,
    North,
}

/// Which movement rule applies at a position: rules are tried in order and
/// the first whose region holds the position wins; 0 means none applies.
pub open spec fn rule_of(x: int, y: int) -> int {
    if x > break_point_x(0) {
        1
    } else if x > break_point_x(2) && y > break_point_y(1) {
        2
    } else if y <= break_point_y(1) && x >= break_point_x(2) {
        3
    } else if y < SPAWN_Y && x <= break_point_x(2) && x > break_point_x(4) {
        4
    } else if y >= SPAWN_Y && x >= break_point_x(4) {
        5
    } else if y > break_point_y(5) && x <= break_point_x(4) {
        6
    } else {
        0
    }
}

pub open spec fn heading_of_rule(rule: int) -> Heading {
    if rule == 2 || rule == 6 {
        Heading::South
    } else if rule == 4 {
        Heading::North
    } else {
        Heading::West
    }
}

/// The segment index recorded by a rule; rule 1 (the entry leg) keeps the
/// index the enemy already has.
pub open spec fn segment_after(rule: int, current: int) -> int {
    if 2 <= rule <= 6 { rule - 1 } else { current }
}

/// Index of the movement rule that applies at a position (see `rule_of`).
pub fn classify(x: i64, y: i64) -> (r: u8)
    ensures
        r as int == rule_of(x as int, y as int),
{
    if x > TURN_EAST_X {
        1
    } else if x > TURN_MID_X && y > TURN_LOW_Y {
        2
    } else if y <= TURN_LOW_Y && x >= TURN_MID_X {
        3
    } else if y < SPAWN_Y && x <= TURN_MID_X && x > TURN_WEST_X {
        4
    } else if y >= SPAWN_Y && x >= TURN_WEST_X {
        5
    } else if y > TURN_END_Y && x <= TURN_WEST_X {
        6
    } else {
        0
    }
}

/// An enemy following the route.
#[derive(Clone, Copy, Debug, PartialEq, Eq, Structural)]
pub struct Enemy {
    pub id: u64,
    pub life: u16,
    /// Thousandths of a unit per second.
    pub speed: u64,
    pub x: i64,
    pub y: i64,
    /// Index of the route leg the enemy is on.
    pub segment: u8,
    /// Which enemy template it was spawned from.
    pub archetype: u8,
}

/// Distance covered at `speed` during `delta_ms` milliseconds.
pub open spec fn displacement(speed: int, delta_ms: int) -> int {
    speed * delta_ms / 1000
}

impl Enemy {
    pub open spec fn wf(&self) -> bool {
        &&& -COORD_LIMIT <= self.x <= COORD_LIMIT
        &&& -COORD_LIMIT <= self.y <= COORD_LIMIT
        &&& self.speed <= MAX_ENEMY_SPEED
        &&& self.segment < 6
    }

    /// The enemy after one movement step of `delta_ms` milliseconds.
    pub open spec fn moved(e: Enemy, delta_ms: int) -> Enemy {
        let rule = rule_of(e.x as int, e.y as int);
        let d = displacement(e.speed as int, delta_ms);
        if rule == 0 {
            e
        } else {
            let h = heading_of_rule(rule);
            Enemy {
                x: (if h == Heading::West { e.x - d } else { e.x as int }) as i64,
                y: (if h == Heading::South { e.y - d } else if h == Heading::North { e.y + d } else { e.y as int }) as i64,
                segment: segment_after(rule, e.segment as int) as u8,
                ..e
            }
        }
    }

    /// Whether the enemy has passed the end of the route.
    pub open spec fn breached(&self) -> bool {
        self.y <= break_point_y(5)
    }

    /// Advances the enemy along the route by `speed * delta_ms`.
    pub fn move_along_path(&mut self, delta_ms: u64)
        requires
            old(self).wf(),
            delta_ms <= MAX_DELTA_MS,
        ensures
            final(self).wf(),
            *final(self) == Enemy::moved(*old(self), delta_ms as int),
    {
        let rule = classify(self.x, self.y);
        assert(self.speed * delta_ms <= MAX_ENEMY_SPEED * MAX_DELTA_MS) by (nonlinear_arith)
            requires self.speed <= MAX_ENEMY_SPEED, delta_ms <= MAX_DELTA_MS;
        let d = ((self.speed * delta_ms) / 1000) as i64;
        if rule == 1 || rule == 3 || rule == 5 {
            self.x = self.x - d;
        } else if rule == 2 || rule == 6 {
            self.y = self.y - d;
        } else if rule == 4 {
            self.y = self.y + d;
        }
        if rule >= 2 {
            self.segment = rule - 1;
        }
    }

    /// Whether the enemy has passed the end of the route.
    pub fn has_breached(&self) -> (r: bool)
        ensures
            r == self.breached(),
    {
        self.y <= TURN_END_Y
    }
}

} // verus!
