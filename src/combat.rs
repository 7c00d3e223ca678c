//! Tower targeting, projectile motion and the reward for a kill.
use vstd::prelude::*;
use crate::path::{Enemy, break_point, break_point_x, break_point_y, COORD_LIMIT};
use crate::timer::{Timer, TimerMode};

verus! {

/// Reach of every tower, in thousandths of a unit.
pub const TOWER_ATTACK_RANGE: i128 = 250_000;
/// Squared distance within which a projectile starts its impact.
pub const SHOT_HURT_DISTANCE_SQ: i128 = 700_000_000;
/// Squared distance within which a projectile that lost its target lands.
pub const SHOT_LAND_DISTANCE_SQ: i128 = 50_000_000;
/// Distance from the origin beyond which projectiles are discarded.
pub const DESPAWN_SHOT_RANGE: i128 = 800_000;
/// Projectile speed, in thousandths of a unit per second.
pub const SHOT_SPEED: u64 = 700_000;

/// Squared distance between two points.
pub open spec fn dist_sq(ax: int, ay: int, bx: int, by: int) -> int {
    (ax - bx) * (ax - bx) + (ay - by) * (ay - by)
}

pub open spec fn in_coords(x: int) -> bool {
    -COORD_LIMIT <= x <= COORD_LIMIT
}

/// Squared distance between two points within the coordinate bounds.
pub fn distance_sq(ax: i64, ay: i64, bx: i64, by: i64) -> (r: i128)
    requires
        in_coords(ax as int),
        in_coords(ay as int),
        in_coords(bx as int),
        in_coords(by as int),
    ensures
        r == dist_sq(ax as int, ay as int, bx as int, by as int),
        0 <= r <= 8_000_000_000_000_000_000_000_000,
{
    let dx = ax as i128 - bx as i128;
    let dy = ay as i128 - by as i128;
    assert(dx * dx <= 4_000_000_000_000_000_000_000_000) by (nonlinear_arith)
        requires -2_000_000_000_000 <= dx <= 2_000_000_000_000;
    assert(dy * dy <= 4_000_000_000_000_000_000_000_000) by (nonlinear_arith)
        requires -2_000_000_000_000 <= dy <= 2_000_000_000_000;
    assert(dx * dx >= 0 && dy * dy >= 0) by (nonlinear_arith);
    dx * dx + dy * dy
}

/// Whether an enemy is within reach of a tower: strictly closer than the
/// attack range and not at the tower's very position.
pub open spec fn in_range(tx: int, ty: int, e: Enemy) -> bool {
    let d = dist_sq(tx, ty, e.x as int, e.y as int);
    0 < d < TOWER_ATTACK_RANGE * TOWER_ATTACK_RANGE
}

/// Squared distance from an enemy to the turning point of its current leg.
pub open spec fn goal_dist_sq(e: Enemy) -> int {
    dist_sq(e.x as int, e.y as int, break_point_x(e.segment as int), break_point_y(e.segment as int))
}

/// Enemy `i` is the one a tower at (tx, ty) attacks: it is in range; no enemy
/// in range is on a later leg; among those in range on the same leg none is
/// closer to the leg's turning point, and any equally close one comes later
/// in the sequence.
pub open spec fn is_target(tx: int, ty: int, s: Seq<Enemy>, i: int) -> bool {
    &&& 0 <= i < s.len()
    &&& in_range(tx, ty, s[i])
    &&& forall|j: int| 0 <= j < s.len() && in_range(tx, ty, #[trigger] s[j]) ==> {
        &&& s[j].segment <= s[i].segment
        &&& s[j].segment == s[i].segment ==> {
            ||| goal_dist_sq(s[i]) < goal_dist_sq(s[j])
            ||| (goal_dist_sq(s[i]) == goal_dist_sq(s[j]) && i <= j)
        }
    }
}

/// Selection is deterministic: at most one enemy is the target.
pub proof fn lemma_target_unique(tx: int, ty: int, s: Seq<Enemy>, i: int, j: int)
    requires
        is_target(tx, ty, s, i),
        is_target(tx, ty, s, j),
    ensures
        i == j,
{
    assert(in_range(tx, ty, s[j]));
    assert(in_range(tx, ty, s[i]));
}

/// Of two enemies in range on the furthest leg, the one strictly closer to
/// the leg's turning point is chosen over the other.
pub proof fn lemma_closer_enemy_preferred(tx: int, ty: int, s: Seq<Enemy>, i: int, j: int, k: int)
    requires
        is_target(tx, ty, s, k),
        0 <= i < s.len(),
        0 <= j < s.len(),
        in_range(tx, ty, s[i]),
        in_range(tx, ty, s[j]),
        s[i].segment == s[j].segment,
        s[i].segment == s[k].segment,
        goal_dist_sq(s[i]) < goal_dist_sq(s[j]),
    ensures
        k != j,
{
    assert(in_range(tx, ty, s[i]));
}

pub open spec fn enemies_wf(s: Seq<Enemy>) -> bool {
    forall|i: int| 0 <= i < s.len() ==> (#[trigger] s[i]).wf()
}

/// The enemy a tower at (tx, ty) attacks, if any is in range (see
/// `is_target`).
pub fn select_target(tx: i64, ty: i64, enemies: &Vec<Enemy>) -> (r: Option<usize>)
    requires
        in_coords(tx as int),
        in_coords(ty as int),
        enemies_wf(enemies@),
    ensures
        r.is_none() <==> forall|j: int| 0 <= j < enemies@.len()
            ==> !in_range(tx as int, ty as int, #[trigger] enemies@[j]),
        r matches Some(i) ==> is_target(tx as int, ty as int, enemies@, i as int),
{
    let n = enemies.len();
    let mut any = false;
    let mut max_seg: u8 = 0;
    let mut i: usize = 0;
    while i < n
        invariant
            n == enemies@.len(),
            i <= n,
            enemies_wf(enemies@),
            in_coords(tx as int),
            in_coords(ty as int),
            any <==> exists|j: int| 0 <= j < i && in_range(tx as int, ty as int, #[trigger] enemies@[j]),
            forall|j: int| 0 <= j < i && in_range(tx as int, ty as int, #[trigger] enemies@[j])
                ==> enemies@[j].segment <= max_seg,
            any ==> exists|j: int| 0 <= j < i && in_range(tx as int, ty as int, #[trigger] enemies@[j])
                && enemies@[j].segment == max_seg,
        decreases n - i,
    {
        let e = enemies[i];
        let d = distance_sq(tx, ty, e.x, e.y);
        if d > 0 && d < TOWER_ATTACK_RANGE * TOWER_ATTACK_RANGE {
            if !any || e.segment > max_seg {
                max_seg = e.segment;
            }
            any = true;
        }
        i = i + 1;
    }
    if !any {
        return None;
    }
    let mut best: usize = 0;
    let mut best_dist: i128 = 0;
    let mut found = false;
    let mut k: usize = 0;
    while k < n
        invariant
            n == enemies@.len(),
            k <= n,
            enemies_wf(enemies@),
            in_coords(tx as int),
            in_coords(ty as int),
            forall|j: int| 0 <= j < n && in_range(tx as int, ty as int, #[trigger] enemies@[j])
                ==> enemies@[j].segment <= max_seg,
            exists|j: int| 0 <= j < n && in_range(tx as int, ty as int, #[trigger] enemies@[j])
                && enemies@[j].segment == max_seg,
            found ==> {
                &&& best < k
                &&& in_range(tx as int, ty as int, enemies@[best as int])
                &&& enemies@[best as int].segment == max_seg
                &&& best_dist == goal_dist_sq(enemies@[best as int])
            },
            forall|j: int| 0 <= j < k && in_range(tx as int, ty as int, #[trigger] enemies@[j])
                && enemies@[j].segment == max_seg ==> found && best_dist <= goal_dist_sq(enemies@[j])
                && (best_dist == goal_dist_sq(enemies@[j]) ==> best <= j),
        decreases n - k,
    {
        let e = enemies[k];
        let d = distance_sq(tx, ty, e.x, e.y);
        if d > 0 && d < TOWER_ATTACK_RANGE * TOWER_ATTACK_RANGE && e.segment == max_seg {
            let (gx, gy) = break_point(e.segment);
            let g = distance_sq(e.x, e.y, gx, gy);
            if !found || g < best_dist {
                best = k;
                best_dist = g;
                found = true;
            }
        }
        k = k + 1;
    }
    Some(best)
}

/// The largest `r <= k` whose square is at most `n`.
pub open spec fn isqrt_upto(n: int, k: nat) -> nat
    decreases k,
{
    if k * k <= n || k == 0 { k } else { isqrt_upto(n, (k - 1) as nat) }
}

/// Integer square root: the largest natural number whose square is at most `n`.
pub open spec fn isqrt(n: nat) -> nat {
    isqrt_upto(n as int, n)
}

proof fn lemma_isqrt_upto(n: int, k: nat, r: nat)
    requires
        r * r <= n < (r + 1) * (r + 1),
        r <= k,
    ensures
        isqrt_upto(n, k) == r,
    decreases k,
{
    if k > r {
        assert(k * k >= (r + 1) * (r + 1)) by (nonlinear_arith) requires k >= r + 1, r >= 0;
        lemma_isqrt_upto(n, (k - 1) as nat, r);
    }
}

/// Integer square root of a squared distance.
pub fn integer_sqrt(n: i128) -> (r: i128)
    requires
        0 <= n <= 8_000_000_000_000_000_000_000_000,
    ensures
        r == isqrt(n as nat),
        r * r <= n < (r + 1) * (r + 1),
        0 <= r < 4_000_000_000_000,
{
    let mut lo: i128 = 0;
    let mut hi: i128 = 4_000_000_000_000;
    assert(hi * hi > n) by (nonlinear_arith) requires hi == 4_000_000_000_000, n <= 8_000_000_000_000_000_000_000_000;
    while hi - lo > 1
        invariant
            0 <= lo < hi <= 4_000_000_000_000,
            lo * lo <= n < hi * hi,
        decreases hi - lo,
    {
        let mid = lo + (hi - lo) / 2;
        assert(mid * mid <= 16_000_000_000_000_000_000_000_000) by (nonlinear_arith)
            requires 0 <= mid <= 4_000_000_000_000;
        if mid * mid <= n {
            lo = mid;
        } else {
            hi = mid;
        }
    }
    proof {
        assert(lo <= n) by (nonlinear_arith) requires lo * lo <= n, lo >= 0;
        lemma_isqrt_upto(n as int, n as nat, lo as nat);
    }
    lo
}

/// One coordinate moved `step / dist` of the way from `p` to `t`.
pub open spec fn toward(p: int, t: int, step: int, dist: int) -> int {
    if t >= p { p + (t - p) * step / dist } else { p - (p - t) * step / dist }
}

/// A point moved `step` towards a target: onto the target when it is no
/// further than `step`, otherwise along the straight line to it.
pub open spec fn approach(px: int, py: int, tx: int, ty: int, step: int) -> (int, int) {
    let dist = isqrt(dist_sq(px, py, tx, ty) as nat) as int;
    if dist <= step {
        (tx, ty)
    } else {
        (toward(px, tx, step, dist), toward(py, ty, step, dist))
    }
}

fn toward_exec(p: i64, t: i64, step: i128, dist: i128) -> (r: i64)
    requires
        in_coords(p as int),
        in_coords(t as int),
        0 <= step < dist,
        (t - p) * (t - p) < (dist + 1) * (dist + 1),
        dist <= 4_000_000_000_000,
    ensures
        r == toward(p as int, t as int, step as int, dist as int),
        p <= t ==> p <= r <= t,
        t <= p ==> t <= r <= p,
{
    let gap: i128 = if t >= p { t as i128 - p as i128 } else { p as i128 - t as i128 };
    assert(gap * gap == (t - p) * (t - p)) by (nonlinear_arith)
        requires gap == t - p || gap == p - t;
    assert(gap <= dist) by (nonlinear_arith)
        requires gap * gap < (dist + 1) * (dist + 1), gap >= 0, dist > 0;
    assert(gap * step <= gap * dist) by (nonlinear_arith) requires 0 <= step < dist, gap >= 0;
    assert(gap * dist <= 16_000_000_000_000_000_000_000_000) by (nonlinear_arith)
        requires 0 <= gap <= dist <= 4_000_000_000_000;
    assert(gap * step >= 0) by (nonlinear_arith) requires 0 <= step, gap >= 0;
    let moved = gap * step / dist;
    assert(moved <= gap) by (nonlinear_arith) requires moved as int == (gap * step) as int / dist as int, gap * step <= gap * dist, dist > 0;
    if t >= p {
        (p as i128 + moved) as i64
    } else {
        (p as i128 - moved) as i64
    }
}

/// Moves a point `step` towards a target (see `approach`).
pub fn approach_exec(px: i64, py: i64, tx: i64, ty: i64, step: i128) -> (r: (i64, i64))
    requires
        in_coords(px as int),
        in_coords(py as int),
        in_coords(tx as int),
        in_coords(ty as int),
        step >= 0,
    ensures
        (r.0 as int, r.1 as int) == approach(px as int, py as int, tx as int, ty as int, step as int),
        in_coords(r.0 as int),
        in_coords(r.1 as int),
{
    let d2 = distance_sq(px, py, tx, ty);
    let dist = integer_sqrt(d2);
    if dist <= step {
        (tx, ty)
    } else {
        proof {
            assert((tx - px) * (tx - px) < (dist + 1) * (dist + 1)) by (nonlinear_arith)
                requires d2 == (px - tx) * (px - tx) + (py - ty) * (py - ty), d2 < (dist + 1) * (dist + 1);
            assert((ty - py) * (ty - py) < (dist + 1) * (dist + 1)) by (nonlinear_arith)
                requires d2 == (px - tx) * (px - tx) + (py - ty) * (py - ty), d2 < (dist + 1) * (dist + 1);
        }
        (toward_exec(px, tx, step, dist), toward_exec(py, ty, step, dist))
    }
}

/// Gold for killing an enemy of wave `wave` left with `life`: life / 2.5 plus
/// twice the one-based wave number, rounded.
pub open spec fn reward_spec(life: int, wave: int) -> int {
    rounded_fifths(2 * life + 10 * (wave + 1))
}

/// `n / 5` rounded to the nearest integer, halves up.
pub open spec fn rounded_fifths(n: int) -> int {
    (2 * n + 5) / 10
}

/// Gold earned for a kill (see `reward_spec`).
pub fn kill_reward(life: u16, wave: u8) -> (r: u16)
    ensures
        r == reward_spec(life as int, wave as int),
{
    let n: u64 = 2 * life as u64 + 10 * (wave as u64 + 1);
    ((2 * n + 5) / 10) as u16
}

/// Interval between impact frames of a projectile, in milliseconds.
pub const SHOT_FRAME_MS: u64 = 50;
/// The impact frame on which a projectile deals its damage.
pub const SHOT_LAST_FRAME: u8 = 7;
/// Height above a tower at which its projectiles appear.
pub const SHOT_LAUNCH_HEIGHT: i64 = 40_000;

/// The enemy a projectile flies at, and where it was last seen.
#[derive(Clone, Copy, Debug, PartialEq, Eq, Structural)]
pub struct ShotTarget {
    pub enemy_id: u64,
    pub x: i64,
    pub y: i64,
}

/// A projectile in flight.
#[derive(Clone, Copy, Debug)]
pub struct Shot {
    pub id: u64,
    pub damage: u16,
    pub target: Option<ShotTarget>,
    pub x: i64,
    pub y: i64,
    /// Paces the impact frames once the projectile is close to its target.
    pub animation_timer: Timer,
    /// The current impact frame.
    pub frame: u8,
}

impl Shot {
    pub open spec fn wf(&self) -> bool {
        &&& in_coords(self.x as int)
        &&& in_coords(self.y as int)
        &&& self.animation_timer.wf()
        &&& self.frame < SHOT_LAST_FRAME
        &&& (self.target matches Some(t) ==> in_coords(t.x as int) && in_coords(t.y as int))
    }
}

/// Projectiles with ids in strictly increasing order, each well formed.
pub open spec fn shots_ok(s: Seq<Shot>) -> bool {
    &&& forall|i: int, j: int| 0 <= i < j < s.len() ==> s[i].id < s[j].id
    &&& forall|i: int| 0 <= i < s.len() ==> (#[trigger] s[i]).wf()
}

/// The enemy that a tower at (tx, ty) attacks, if any.
pub open spec fn target_of(tx: int, ty: int, s: Seq<Enemy>) -> Option<int> {
    if exists|i: int| is_target(tx, ty, s, i) {
        Some(choose|i: int| is_target(tx, ty, s, i))
    } else {
        None
    }
}

/// The projectile that a tower at (tx, ty) with `damage` launches at enemy
/// `e` under the id `id`.
pub open spec fn launched(tx: int, ty: int, damage: u16, e: Enemy, id: int) -> Shot {
    Shot {
        id: id as u64,
        damage,
        target: Some(ShotTarget { enemy_id: e.id, x: e.x, y: e.y }),
        x: tx as i64,
        y: (ty + SHOT_LAUNCH_HEIGHT) as i64,
        animation_timer: Timer {
            duration_ms: SHOT_FRAME_MS,
            elapsed_ms: 0,
            mode: TimerMode::Repeating,
            paused: false,
            finished: false,
            times_finished_this_tick: 0,
        },
        frame: 0,
    }
}

} // verus!
