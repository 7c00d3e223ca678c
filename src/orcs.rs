//! Orcs: enemies that chase the player, keep apart from one another and
//! attack at close range, with their sprite animations.
use vstd::prelude::*;
use crate::timer::{Timer, TimerMode};
use crate::combat::{dist_sq, distance_sq, integer_sqrt, isqrt, in_coords};
use crate::path::{COORD_LIMIT, MAX_ENEMY_SPEED, MAX_DELTA_MS};

verus! {

/// Distance within which an orc notices the player, in thousandths of a unit.
pub const MAX_AGRO_DISTANCE: i128 = 250_000;
/// Distance within which an orc attacks instead of walking.
pub const ATTACK_DISTANCE: i128 = 50_000;
/// Orcs closer than this push each other apart.
pub const MIN_ORC_SEPARATION: i128 = 25_000;
/// Weight of the push between two orcs against the pull towards the player.
pub const SEPARATION_STRENGTH: i128 = 2;
/// Length of a unit direction vector.
pub const DIRECTION_SCALE: i128 = 1000;
/// Bound on the number of orcs steered together.
pub const MAX_ORCS: usize = 1000;
/// Bound on the magnitude of the player's coordinates.
pub const PLAYER_LIMIT: i64 = 100_000_000_000;
/// Number of orcs placed at the start.
pub const SPAWN_AMOUNT: u8 = 10;

/// What an orc is doing, which picks its animation.
#[derive(Clone, Copy, Debug, PartialEq, Eq, Structural)]
pub enum OrcsAnimationState {
    Walk,
    Idle,
    Attack,
    Death,
}

/// A run of sprite frames from `first` to `last`, paced by a timer.
#[derive(Clone, Copy, Debug)]
pub struct AnimateSprite {
    pub first: usize,
    pub last: usize,
    pub timer: Timer,
}

/// The frame after `index` in a run: the next one, or back to the first when
/// `index` is at or past the last or before the first.
pub open spec fn next_frame(index: int, first: int, last: int) -> int {
    if index < first || index >= last { first } else { index + 1 }
}

impl AnimateSprite {
    fn new(first: usize, last: usize, frame_ms: u64) -> (r: AnimateSprite)
        requires
            frame_ms > 0,
        ensures
            r.first == first,
            r.last == last,
            r.timer == Timer::new_spec(frame_ms, TimerMode::Repeating),
    {
        AnimateSprite { first, last, timer: Timer::new(frame_ms, TimerMode::Repeating) }
    }

    /// Advances the run's timer and returns the frame to show after `index`.
    pub fn advance(&mut self, index: usize, delta_ms: u64) -> (r: usize)
        requires
            old(self).timer.wf(),
            old(self).last < usize::MAX,
        ensures
            final(self).timer == Timer::ticked(old(self).timer, delta_ms),
            final(self).timer.wf(),
            final(self).first == old(self).first,
            final(self).last == old(self).last,
            r == (if final(self).timer.just_finished_spec() {
                next_frame(index as int, old(self).first as int, old(self).last as int)
            } else {
                index as int
            }),
    {
        self.timer.tick(delta_ms);
        if self.timer.just_finished() {
            if index < self.first || index >= self.last { self.first } else { index + 1 }
        } else {
            index
        }
    }
}

/// The animations of an orc and which one plays.
#[derive(Clone, Copy, Debug)]
pub struct OrcsAnimation {
    pub walk: AnimateSprite,
    pub idle: AnimateSprite,
    pub attack: AnimateSprite,
    pub death: AnimateSprite,
    pub state: OrcsAnimationState,
}

impl OrcsAnimation {
    pub open spec fn wf(&self) -> bool {
        &&& self.walk.timer.wf() && self.walk.last < usize::MAX
        &&& self.idle.timer.wf() && self.idle.last < usize::MAX
        &&& self.attack.timer.wf() && self.attack.last < usize::MAX
        &&& self.death.timer.wf() && self.death.last < usize::MAX
    }

    /// The run that the current state plays.
    pub open spec fn current(&self) -> AnimateSprite {
        match self.state {
            OrcsAnimationState::Walk => self.walk,
            OrcsAnimationState::Idle => self.idle,
            OrcsAnimationState::Attack => self.attack,
            OrcsAnimationState::Death => self.death,
        }
    }

    /// Advances the run of the current state and returns the frame to show
    /// after `index`; the other runs are left alone.
    pub fn animate_orcs(&mut self, index: usize, delta_ms: u64) -> (r: usize)
        requires
            old(self).wf(),
        ensures
            final(self).wf(),
            final(self).state == old(self).state,
            final(self).current().timer == Timer::ticked(old(self).current().timer, delta_ms),
            final(self).current().first == old(self).current().first,
            final(self).current().last == old(self).current().last,
            r == (if final(self).current().timer.just_finished_spec() {
                next_frame(index as int, old(self).current().first as int, old(self).current().last as int)
            } else {
                index as int
            }),
            old(self).state != OrcsAnimationState::Walk ==> final(self).walk == old(self).walk,
            old(self).state != OrcsAnimationState::Idle ==> final(self).idle == old(self).idle,
            old(self).state != OrcsAnimationState::Attack ==> final(self).attack == old(self).attack,
            old(self).state != OrcsAnimationState::Death ==> final(self).death == old(self).death,
    {
        match self.state {
            OrcsAnimationState::Walk => self.walk.advance(index, delta_ms),
            OrcsAnimationState::Idle => self.idle.advance(index, delta_ms),
            OrcsAnimationState::Attack => self.attack.advance(index, delta_ms),
            OrcsAnimationState::Death => self.death.advance(index, delta_ms),
        }
    }
}

impl Default for OrcsAnimation {
    fn default() -> (r: OrcsAnimation)
        ensures
            r.wf(),
            r.state == OrcsAnimationState::Idle,
            r.walk.first == 0 && r.walk.last == 7 && r.walk.timer == Timer::new_spec(100, TimerMode::Repeating),
            r.idle.first == 0 && r.idle.last == 4 && r.idle.timer == Timer::new_spec(250, TimerMode::Repeating),
            r.attack.first == 0 && r.attack.last == 6 && r.attack.timer == Timer::new_spec(100, TimerMode::Repeating),
            r.death.first == 0 && r.death.last == 4 && r.death.timer == Timer::new_spec(250, TimerMode::Repeating),
    {
        OrcsAnimation {
            walk: AnimateSprite::new(0, 7, 100),
            idle: AnimateSprite::new(0, 4, 250),
            attack: AnimateSprite::new(0, 6, 100),
            death: AnimateSprite::new(0, 4, 250),
            state: OrcsAnimationState::Idle,
        }
    }
}

/// An orc's fighting statistics.
#[derive(Clone, Copy, Debug)]
pub struct Orcs {
    pub life: u8,
    pub attack_damage: u8,
    /// Thousandths of a unit per second.
    pub speed: u64,
    pub attack_cooldown: Timer,
}

impl Default for Orcs {
    fn default() -> (r: Orcs)
        ensures
            r.life == 100,
            r.attack_damage == 10,
            r.speed == 125_000,
            r.attack_cooldown == Timer::new_spec(1500, TimerMode::Repeating),
    {
        Orcs {
            life: 100,
            attack_damage: 10,
            speed: 125_000,
            attack_cooldown: Timer::new(1500, TimerMode::Repeating),
        }
    }
}

/// An orc on the map.
#[derive(Clone, Copy, Debug)]
pub struct OrcUnit {
    pub x: i64,
    pub y: i64,
    pub stats: Orcs,
    pub animation: OrcsAnimation,
    /// Whether the sprite faces left.
    pub facing_left: bool,
}

impl OrcUnit {
    pub open spec fn wf(&self) -> bool {
        &&& in_coords(self.x as int)
        &&& in_coords(self.y as int)
        &&& self.stats.speed <= MAX_ENEMY_SPEED
    }
}

/// `v / len` scaled to thousandths, rounded towards zero.
pub open spec fn scaled(v: int, len: int) -> int {
    if v >= 0 { v * DIRECTION_SCALE / len } else { -((-v) * DIRECTION_SCALE / len) }
}

/// The direction of (dx, dy) as a vector of length about 1000; zero for the
/// zero vector.
pub open spec fn unit_vector(dx: int, dy: int) -> (int, int) {
    let len = isqrt((dx * dx + dy * dy) as nat) as int;
    if len == 0 { (0, 0) } else { (scaled(dx, len), scaled(dy, len)) }
}

/// `v * step / 1000`, rounded towards zero.
pub open spec fn along(v: int, step: int) -> int {
    if v >= 0 { v * step / (DIRECTION_SCALE as int) } else { -((-v) * step / (DIRECTION_SCALE as int)) }
}

/// The push on orc `i` from orcs `0..k` of `s` that are too close to it:
/// twice the direction away from each.
pub open spec fn repulsion(s: Seq<OrcUnit>, i: int, k: nat) -> (int, int)
    decreases k,
{
    if k == 0 {
        (0, 0)
    } else {
        let (ax, ay) = repulsion(s, i, (k - 1) as nat);
        let j = k - 1;
        if j != i && dist_sq(s[i].x as int, s[i].y as int, s[j].x as int, s[j].y as int)
            < MIN_ORC_SEPARATION * MIN_ORC_SEPARATION {
            let (ux, uy) = unit_vector(s[i].x - s[j].x, s[i].y - s[j].y);
            (ax + SEPARATION_STRENGTH * ux, ay + SEPARATION_STRENGTH * uy)
        } else {
            (ax, ay)
        }
    }
}

/// Orc `i` of `s` after a step of `delta_ms` towards the player at (px, py).
///
/// Within notice range but beyond attack range it walks along the direction
/// to the player plus the push from its neighbours, turning to face the way
/// it moves; within attack range it attacks; otherwise it idles.
pub open spec fn steered(s: Seq<OrcUnit>, i: int, px: int, py: int, delta_ms: int) -> OrcUnit {
    let o = s[i];
    let (tx, ty) = unit_vector(px - o.x, py - o.y);
    let (rx, ry) = repulsion(s, i, s.len());
    let (dx, dy) = (tx + rx, ty + ry);
    let d2 = dist_sq(o.x as int, o.y as int, px, py);
    if d2 <= MAX_AGRO_DISTANCE * MAX_AGRO_DISTANCE && d2 > ATTACK_DISTANCE * ATTACK_DISTANCE {
        let step = o.stats.speed * delta_ms / 1000;
        OrcUnit {
            x: (o.x + along(dx, step)) as i64,
            y: (o.y + along(dy, step)) as i64,
            animation: OrcsAnimation { state: OrcsAnimationState::Walk, ..o.animation },
            facing_left: if dx < 0 { true } else if dx > 0 { false } else { o.facing_left },
            ..o
        }
    } else if d2 <= ATTACK_DISTANCE * ATTACK_DISTANCE {
        OrcUnit { animation: OrcsAnimation { state: OrcsAnimationState::Attack, ..o.animation }, ..o }
    } else {
        OrcUnit { animation: OrcsAnimation { state: OrcsAnimationState::Idle, ..o.animation }, ..o }
    }
}

fn scaled_exec(v: i128, len: i128) -> (r: i128)
    requires
        len > 0,
        v * v <= len * len,
        -2_000_000_000_000_000 <= v <= 2_000_000_000_000_000,
    ensures
        r == scaled(v as int, len as int),
        -DIRECTION_SCALE <= r <= DIRECTION_SCALE,
{
    let m: i128 = if v >= 0 { v } else { -v };
    assert(m * m == v * v) by (nonlinear_arith) requires m == v || m == -v;
    assert(m <= len) by (nonlinear_arith) requires m * m <= len * len, m >= 0, len > 0;
    assert(m * DIRECTION_SCALE <= len * DIRECTION_SCALE) by (nonlinear_arith) requires m <= len, m >= 0;
    let q = m * DIRECTION_SCALE / len;
    assert(q <= DIRECTION_SCALE) by (nonlinear_arith)
        requires q as int == (m * DIRECTION_SCALE) as int / len as int, m * DIRECTION_SCALE <= len * DIRECTION_SCALE, len > 0;
    assert(q >= 0) by (nonlinear_arith)
        requires q as int == (m * DIRECTION_SCALE) as int / len as int, m >= 0, len > 0;
    if v >= 0 { q } else { -q }
}

proof fn lemma_square_below(v: int, len: int)
    requires
        v * v < (len + 1) * (len + 1),
        len >= 0,
    ensures
        v * v <= len * len,
{
    let m = if v >= 0 { v } else { -v };
    assert(m * m == v * v) by (nonlinear_arith) requires m == v || m == -v;
    if m > len {
        assert(m * m >= (len + 1) * (len + 1)) by (nonlinear_arith) requires m >= len + 1, len >= 0;
    }
    assert(m * m <= len * len) by (nonlinear_arith) requires m <= len, m >= 0;
}

/// Direction of (dx, dy) (see `unit_vector`).
fn unit_vector_exec(ax: i64, ay: i64, bx: i64, by: i64) -> (r: (i128, i128))
    requires
        in_coords(ax as int),
        in_coords(ay as int),
        in_coords(bx as int),
        in_coords(by as int),
    ensures
        (r.0 as int, r.1 as int) == unit_vector(ax - bx, ay - by),
        -DIRECTION_SCALE <= r.0 <= DIRECTION_SCALE,
        -DIRECTION_SCALE <= r.1 <= DIRECTION_SCALE,
{
    let d2 = distance_sq(ax, ay, bx, by);
    let len = integer_sqrt(d2);
    if len == 0 {
        return (0, 0);
    }
    let dx = ax as i128 - bx as i128;
    let dy = ay as i128 - by as i128;
    proof {
        assert(dx * dx >= 0 && dy * dy >= 0) by (nonlinear_arith);
        lemma_square_below(dx as int, len as int);
        lemma_square_below(dy as int, len as int);
    }
    (scaled_exec(dx, len), scaled_exec(dy, len))
}

fn along_exec(v: i128, step: i128) -> (r: i128)
    requires
        -2_001_000 <= v <= 2_001_000,
        0 <= step <= 300_000_000,
    ensures
        r == along(v as int, step as int),
        -600_300_000_000 <= r <= 600_300_000_000,
{
    let m: i128 = if v >= 0 { v } else { -v };
    assert(0 <= m * step <= 600_300_000_000_000) by (nonlinear_arith)
        requires 0 <= m <= 2_001_000, 0 <= step <= 300_000_000;
    let q = m * step / DIRECTION_SCALE;
    if v >= 0 { q } else { -q }
}

proof fn lemma_abs_below(v: int, bound: int)
    requires
        v * v <= bound * bound,
        bound >= 0,
    ensures
        -bound <= v <= bound,
{
    let m = if v >= 0 { v } else { -v };
    assert(m * m == v * v) by (nonlinear_arith) requires m == v || m == -v;
    if m > bound {
        assert(m * m > bound * bound) by (nonlinear_arith) requires m > bound, bound >= 0;
    }
}

/// Orc `i` after a step towards the player (see `steered`).
fn steer_one(orcs: &Vec<OrcUnit>, i: usize, px: i64, py: i64, delta_ms: u64) -> (r: OrcUnit)
    requires
        i < orcs@.len() <= MAX_ORCS,
        forall|j: int| 0 <= j < orcs@.len() ==> (#[trigger] orcs@[j]).wf(),
        -PLAYER_LIMIT <= px <= PLAYER_LIMIT,
        -PLAYER_LIMIT <= py <= PLAYER_LIMIT,
        delta_ms <= MAX_DELTA_MS,
    ensures
        r == steered(orcs@, i as int, px as int, py as int, delta_ms as int),
        r.wf(),
{
    let o = orcs[i];
    assert(orcs@[i as int].wf());
    let (tx, ty) = unit_vector_exec(px, py, o.x, o.y);
    let mut rx: i128 = 0;
    let mut ry: i128 = 0;
    let n = orcs.len();
    let mut j: usize = 0;
    while j < n
        invariant
            n == orcs@.len() <= MAX_ORCS,
            i < n,
            o == orcs@[i as int],
            j <= n,
            forall|k: int| 0 <= k < orcs@.len() ==> (#[trigger] orcs@[k]).wf(),
            (rx as int, ry as int) == repulsion(orcs@, i as int, j as nat),
            -2000 * j <= rx <= 2000 * j,
            -2000 * j <= ry <= 2000 * j,
        decreases n - j,
    {
        let other = orcs[j];
        assert(orcs@[j as int].wf());
        if j != i && distance_sq(o.x, o.y, other.x, other.y) < MIN_ORC_SEPARATION * MIN_ORC_SEPARATION {
            let (ux, uy) = unit_vector_exec(o.x, o.y, other.x, other.y);
            rx = rx + SEPARATION_STRENGTH * ux;
            ry = ry + SEPARATION_STRENGTH * uy;
        }
        j = j + 1;
    }
    let dx = tx + rx;
    let dy = ty + ry;
    let d2 = distance_sq(o.x, o.y, px, py);
    if d2 <= MAX_AGRO_DISTANCE * MAX_AGRO_DISTANCE && d2 > ATTACK_DISTANCE * ATTACK_DISTANCE {
        assert(o.stats.speed * delta_ms <= MAX_ENEMY_SPEED * MAX_DELTA_MS) by (nonlinear_arith)
            requires o.stats.speed <= MAX_ENEMY_SPEED, delta_ms <= MAX_DELTA_MS;
        let step = (o.stats.speed as i128) * (delta_ms as i128) / 1000;
        proof {
            assert((o.x - px) * (o.x - px) <= MAX_AGRO_DISTANCE * MAX_AGRO_DISTANCE) by (nonlinear_arith)
                requires d2 == (o.x - px) * (o.x - px) + (o.y - py) * (o.y - py), d2 <= MAX_AGRO_DISTANCE * MAX_AGRO_DISTANCE;
            assert((o.y - py) * (o.y - py) <= MAX_AGRO_DISTANCE * MAX_AGRO_DISTANCE) by (nonlinear_arith)
                requires d2 == (o.x - px) * (o.x - px) + (o.y - py) * (o.y - py), d2 <= MAX_AGRO_DISTANCE * MAX_AGRO_DISTANCE;
            lemma_abs_below(o.x - px, MAX_AGRO_DISTANCE as int);
            lemma_abs_below(o.y - py, MAX_AGRO_DISTANCE as int);
        }
        let mx = along_exec(dx, step);
        let my = along_exec(dy, step);
        let mut animation = o.animation;
        animation.state = OrcsAnimationState::Walk;
        OrcUnit {
            x: (o.x as i128 + mx) as i64,
            y: (o.y as i128 + my) as i64,
            animation,
            facing_left: if dx < 0 { true } else if dx > 0 { false } else { o.facing_left },
            ..o
        }
    } else if d2 <= ATTACK_DISTANCE * ATTACK_DISTANCE {
        let mut animation = o.animation;
        animation.state = OrcsAnimationState::Attack;
        OrcUnit { animation, ..o }
    } else {
        let mut animation = o.animation;
        animation.state = OrcsAnimationState::Idle;
        OrcUnit { animation, ..o }
    }
}

/// Steers every orc towards the player, if there is one (see `steered`);
/// each orc reads the others where they stood before the step.
pub fn follow_player_and_attack(orcs: &mut Vec<OrcUnit>, player: Option<(i64, i64)>, delta_ms: u64)
    requires
        old(orcs)@.len() <= MAX_ORCS,
        forall|j: int| 0 <= j < old(orcs)@.len() ==> (#[trigger] old(orcs)@[j]).wf(),
        player matches Some(p) ==> -PLAYER_LIMIT <= p.0 <= PLAYER_LIMIT && -PLAYER_LIMIT <= p.1 <= PLAYER_LIMIT,
        delta_ms <= MAX_DELTA_MS,
    ensures
        player is None ==> final(orcs)@ == old(orcs)@,
        player matches Some(p) ==> final(orcs)@.len() == old(orcs)@.len() && forall|i: int|
            0 <= i < old(orcs)@.len() ==> #[trigger] final(orcs)@[i]
                == steered(old(orcs)@, i, p.0 as int, p.1 as int, delta_ms as int),
        forall|j: int| 0 <= j < final(orcs)@.len() ==> (#[trigger] final(orcs)@[j]).wf(),
{
    let (px, py) = match player {
        Some(p) => p,
        None => { return; },
    };
    let n = orcs.len();
    let mut out: Vec<OrcUnit> = Vec::new();
    let mut i: usize = 0;
    while i < n
        invariant
            n == orcs@.len() <= MAX_ORCS,
            *orcs == *old(orcs),
            player == Some((px, py)),
            -PLAYER_LIMIT <= px <= PLAYER_LIMIT,
            -PLAYER_LIMIT <= py <= PLAYER_LIMIT,
            delta_ms <= MAX_DELTA_MS,
            forall|j: int| 0 <= j < n ==> (#[trigger] orcs@[j]).wf(),
            i <= n,
            out@.len() == i,
            forall|j: int| 0 <= j < i ==> #[trigger] out@[j] == steered(orcs@, j, px as int, py as int, delta_ms as int),
            forall|j: int| 0 <= j < i ==> (#[trigger] out@[j]).wf(),
        decreases n - i,
    {
        let u = steer_one(orcs, i, px, py, delta_ms);
        out.push(u);
        i = i + 1;
    }
    *orcs = out;
}

/// Spacing between orcs at the start, in thousandths of a unit.
pub const ORC_SPACING: i64 = 150_000;
/// Height of the line of orcs at the start.
pub const ORC_SPAWN_Y: i64 = -125_000;

/// The orcs at the start: `SPAWN_AMOUNT` of them in a row, 150 units apart,
/// idle, with default statistics and animations.
pub fn spawn_orcs() -> (r: Vec<OrcUnit>)
    ensures
        r@.len() == SPAWN_AMOUNT,
        forall|i: int| 0 <= i < r@.len() ==> {
            &&& (#[trigger] r@[i]).x == ORC_SPACING * i
            &&& r@[i].y == ORC_SPAWN_Y
            &&& r@[i].wf()
            &&& r@[i].stats.life == 100
            &&& r@[i].stats.speed == 125_000
            &&& r@[i].animation.state == OrcsAnimationState::Idle
            &&& !r@[i].facing_left
        },
{
    let mut r: Vec<OrcUnit> = Vec::new();
    let mut i: u8 = 0;
    while i < SPAWN_AMOUNT
        invariant
            i <= SPAWN_AMOUNT,
            r@.len() == i,
            forall|j: int| 0 <= j < i ==> {
                &&& (#[trigger] r@[j]).x == ORC_SPACING * j
                &&& r@[j].y == ORC_SPAWN_Y
                &&& r@[j].wf()
                &&& r@[j].stats.life == 100
                &&& r@[j].stats.speed == 125_000
                &&& r@[j].animation.state == OrcsAnimationState::Idle
                &&& !r@[j].facing_left
            },
        decreases SPAWN_AMOUNT - i,
    {
        r.push(OrcUnit {
            x: ORC_SPACING * i as i64,
            y: ORC_SPAWN_Y,
            stats: Orcs::default(),
            animation: OrcsAnimation::default(),
            facing_left: false,
        });
        i = i + 1;
    }
    r
}

} // verus!
