//! The simulation state and the passes that make up one tick.
use vstd::prelude::*;
use crate::timer::{Timer, TimerMode};
use crate::path::{Enemy, MAX_DELTA_MS, SPAWN_X, SPAWN_Y};
use crate::wave::{WaveControl, GameState, EnemySpawn, MAX_ENEMIES_PER_WAVE};
use crate::tower::{
    Tower, TOWER_COORD_LIMIT, TowerType, MAX_TOWER_LEVEL, INITIAL_PLAYER_GOLD, MAX_LIFES, damage_spec,
    interval_spec,
};
use crate::combat::{
    Shot, shots_ok, target_of, launched, select_target, is_target, lemma_target_unique, enemies_wf,
    SHOT_FRAME_MS, SHOT_LAUNCH_HEIGHT, ShotTarget, approach, approach_exec, dist_sq, distance_sq,
    reward_spec, kill_reward, in_coords, SHOT_SPEED, SHOT_HURT_DISTANCE_SQ, SHOT_LAND_DISTANCE_SQ,
    DESPAWN_SHOT_RANGE, SHOT_LAST_FRAME,
};

verus! {

/// The player's gold.
#[derive(Clone, Copy, Debug, PartialEq, Eq, Structural)]
pub struct Gold(pub u16);

/// The player's remaining lives.
#[derive(Clone, Copy, Debug, PartialEq, Eq, Structural)]
pub struct Lifes(pub u8);

/// Enemies with ids in strictly increasing order, each well formed.
pub open spec fn enemies_ok(s: Seq<Enemy>) -> bool {
    &&& forall|i: int, j: int| 0 <= i < j < s.len() ==> s[i].id < s[j].id
    &&& forall|i: int| 0 <= i < s.len() ==> (#[trigger] s[i]).wf()
}

/// Every element of `a` is an element of `b`.
pub open spec fn drawn_from(a: Seq<Enemy>, b: Seq<Enemy>) -> bool {
    forall|i: int| 0 <= i < a.len() ==> exists|j: int| 0 <= j < b.len() && #[trigger] a[i] == b[j]
}

/// The enemies of `s` that have not breached, in order.
pub open spec fn survivors(s: Seq<Enemy>) -> Seq<Enemy>
    decreases s.len(),
{
    if s.len() == 0 {
        s
    } else {
        let rest = survivors(s.drop_last());
        if s.last().breached() { rest } else { rest.push(s.last()) }
    }
}

/// How many enemies of `s` have breached.
pub open spec fn breach_count(s: Seq<Enemy>) -> int
    decreases s.len(),
{
    if s.len() == 0 {
        0
    } else {
        breach_count(s.drop_last()) + if s.last().breached() { 1int } else { 0 }
    }
}

/// Every enemy advanced by one movement step.
pub open spec fn all_moved(s: Seq<Enemy>, delta_ms: int) -> Seq<Enemy> {
    s.map_values(|e: Enemy| Enemy::moved(e, delta_ms))
}

/// Moves every enemy along the route.
pub fn move_enemies(enemies: &mut Vec<Enemy>, delta_ms: u64)
    requires
        forall|i: int| 0 <= i < old(enemies)@.len() ==> (#[trigger] old(enemies)@[i]).wf(),
        delta_ms <= MAX_DELTA_MS,
    ensures
        final(enemies)@ == all_moved(old(enemies)@, delta_ms as int),
        forall|i: int| 0 <= i < final(enemies)@.len() ==> (#[trigger] final(enemies)@[i]).wf(),
{
    let n = enemies.len();
    let mut i: usize = 0;
    while i < n
        invariant
            n == enemies@.len(),
            n == old(enemies)@.len(),
            i <= n,
            delta_ms <= MAX_DELTA_MS,
            forall|j: int| 0 <= j < i ==> enemies@[j] == Enemy::moved(old(enemies)@[j], delta_ms as int),
            forall|j: int| i <= j < n ==> enemies@[j] == old(enemies)@[j],
            forall|j: int| 0 <= j < n ==> (#[trigger] enemies@[j]).wf(),
        decreases n - i,
    {
        let mut e = enemies[i];
        e.move_along_path(delta_ms);
        enemies.set(i, e);
        i = i + 1;
    }
    assert(enemies@ =~= all_moved(old(enemies)@, delta_ms as int));
}

/// Removes the enemies that passed the end of the route, taking one life for
/// each (never below zero); returns whether no life is left.
pub fn game_over(enemies: &mut Vec<Enemy>, lifes: &mut Lifes) -> (r: bool)
    requires
        enemies_ok(old(enemies)@),
    ensures
        final(enemies)@ == survivors(old(enemies)@),
        drawn_from(final(enemies)@, old(enemies)@),
        final(lifes).0 == (if old(lifes).0 >= breach_count(old(enemies)@) {
            old(lifes).0 - breach_count(old(enemies)@)
        } else {
            0
        }),
        r == (final(lifes).0 == 0),
        final(lifes).0 <= old(lifes).0,
        enemies_ok(final(enemies)@),
{
    let n = enemies.len();
    let mut kept: Vec<Enemy> = Vec::new();
    let mut i: usize = 0;
    while i < n
        invariant
            n == enemies@.len(),
            i <= n,
            kept@ == survivors(enemies@.take(i as int)),
            lifes.0 == (if old(lifes).0 >= breach_count(enemies@.take(i as int)) {
                old(lifes).0 - breach_count(enemies@.take(i as int))
            } else {
                0
            }),
            forall|a: int, b: int| 0 <= a < b < kept@.len() ==> kept@[a].id < kept@[b].id,
            forall|a: int| 0 <= a < kept@.len() ==> exists|j: int| 0 <= j < i && #[trigger] kept@[a] == enemies@[j],
            *enemies == *old(enemies),
            enemies_ok(enemies@),
            forall|a: int| 0 <= a < kept@.len() ==> (#[trigger] kept@[a]).wf(),
        decreases n - i,
    {
        let e = enemies[i];
        proof {
            assert(enemies@.take(i as int + 1).drop_last() =~= enemies@.take(i as int));
            assert(enemies@.take(i as int + 1).last() == e);
            assert(breach_count(enemies@.take(i as int)) >= 0) by {
                lemma_breach_count_nonneg(enemies@.take(i as int));
            }
        }
        if e.has_breached() {
            lifes.0 = if lifes.0 > 0 { lifes.0 - 1 } else { 0 };
        } else {
            proof {
                assert forall|a: int| 0 <= a < kept@.len() implies kept@[a].id < e.id by {
                    assert(exists|j: int| 0 <= j < i && #[trigger] kept@[a] == enemies@[j]);
                }
            }
            let ghost before = kept@;
            kept.push(e);
            proof {
                assert forall|a: int| 0 <= a < kept@.len() implies exists|j: int| 0 <= j < i + 1 && #[trigger] kept@[a] == enemies@[j] by {
                    if a < before.len() {
                        assert(kept@[a] == before[a]);
                    } else {
                        assert(kept@[a] == enemies@[i as int]);
                    }
                }
            }
        }
        i = i + 1;
    }
    assert(enemies@.take(n as int) =~= enemies@);
    proof { lemma_breach_count_nonneg(enemies@); }
    *enemies = kept;
    lifes.0 == 0
}

proof fn lemma_breach_count_nonneg(s: Seq<Enemy>)
    ensures
        breach_count(s) >= 0,
    decreases s.len(),
{
    if s.len() > 0 {
        lemma_breach_count_nonneg(s.drop_last());
    }
}

/// Every tower's attack timer advanced by `delta_ms`.
pub open spec fn all_ticked(ts: Seq<Tower>, delta_ms: u64) -> Seq<Tower> {
    ts.map_values(|t: Tower| Tower { attack_speed: Timer::ticked(t.attack_speed, delta_ms), ..t })
}

/// The projectiles launched by towers `ts` (already ticked) at enemies `es`,
/// numbered from `first_id`: a tower fires when its attack timer just
/// completed and it has a target.
pub open spec fn volley(ts: Seq<Tower>, es: Seq<Enemy>, first_id: int) -> Seq<Shot>
    decreases ts.len(),
{
    if ts.len() == 0 {
        Seq::empty()
    } else {
        let before = volley(ts.drop_last(), es, first_id);
        let t = ts.last();
        match target_of(t.x as int, t.y as int, es) {
            Some(i) if t.attack_speed.just_finished_spec() =>
                before.push(launched(t.x as int, t.y as int, t.attack_damage, es[i], first_id + before.len())),
            _ => before,
        }
    }
}

proof fn lemma_volley_len(ts: Seq<Tower>, es: Seq<Enemy>, first_id: int)
    ensures
        volley(ts, es, first_id).len() <= ts.len(),
    decreases ts.len(),
{
    if ts.len() > 0 {
        lemma_volley_len(ts.drop_last(), es, first_id);
    }
}

/// Advances every tower's attack timer and launches a projectile from each
/// tower whose timer just completed at its target, if it has one.
pub fn spawn_shots(
    towers: &mut Vec<Tower>,
    enemies: &Vec<Enemy>,
    shots: &mut Vec<Shot>,
    next_shot_id: &mut u64,
    delta_ms: u64,
)
    requires
        forall|i: int| 0 <= i < old(towers)@.len() ==> (#[trigger] old(towers)@[i]).wf(),
        enemies_wf(enemies@),
        shots_ok(old(shots)@),
        forall|i: int| 0 <= i < old(shots)@.len() ==> (#[trigger] old(shots)@[i]).id < *old(next_shot_id),
        *old(next_shot_id) + old(towers)@.len() <= u64::MAX,
    ensures
        final(towers)@ == all_ticked(old(towers)@, delta_ms),
        forall|i: int| 0 <= i < final(towers)@.len() ==> (#[trigger] final(towers)@[i]).wf(),
        final(shots)@ == old(shots)@ + volley(final(towers)@, enemies@, *old(next_shot_id) as int),
        *final(next_shot_id) == *old(next_shot_id) + volley(final(towers)@, enemies@, *old(next_shot_id) as int).len(),
        shots_ok(final(shots)@),
        forall|i: int| 0 <= i < final(shots)@.len() ==> (#[trigger] final(shots)@[i]).id < *final(next_shot_id),
{
    let n = towers.len();
    let ghost first = *next_shot_id as int;
    let mut i: usize = 0;
    while i < n
        invariant
            n == towers@.len(),
            n == old(towers)@.len(),
            i <= n,
            forall|j: int| 0 <= j < i ==> towers@[j] == (Tower {
                attack_speed: Timer::ticked(old(towers)@[j].attack_speed, delta_ms), ..old(towers)@[j] }),
            forall|j: int| i <= j < n ==> towers@[j] == old(towers)@[j],
            forall|j: int| 0 <= j < n ==> (#[trigger] towers@[j]).wf(),
            enemies_wf(enemies@),
            first == *old(next_shot_id),
            first + n <= u64::MAX,
            shots@ == old(shots)@ + volley(towers@.take(i as int), enemies@, first),
            *next_shot_id == first + volley(towers@.take(i as int), enemies@, first).len(),
            volley(towers@.take(i as int), enemies@, first).len() <= i,
            shots_ok(shots@),
            forall|j: int| 0 <= j < shots@.len() ==> (#[trigger] shots@[j]).id < *next_shot_id,
        decreases n - i,
    {
        let mut t = towers[i];
        t.attack_speed.tick(delta_ms);
        let ghost prev = towers@;
        towers.set(i, t);
        assert(towers@.take(i as int) =~= prev.take(i as int));
        let ghost ts = towers@.take(i as int + 1);
        proof {
            assert(ts.drop_last() =~= towers@.take(i as int));
            assert(ts.last() == t);
            lemma_volley_len(ts, enemies@, first);
        }
        let target = select_target(t.x, t.y, enemies);
        proof {
            match target {
                Some(k) => {
                    assert(is_target(t.x as int, t.y as int, enemies@, k as int));
                    let c = choose|c: int| is_target(t.x as int, t.y as int, enemies@, c);
                    lemma_target_unique(t.x as int, t.y as int, enemies@, k as int, c);
                },
                None => {
                    assert forall|c: int| !is_target(t.x as int, t.y as int, enemies@, c) by {
                        if 0 <= c < enemies@.len() {
                            assert(!crate::combat::in_range(t.x as int, t.y as int, enemies@[c]));
                        }
                    }
                },
            }
        }
        match target {
            Some(k) => {
                if t.attack_speed.just_finished() {
                    let e = enemies[k];
                    let shot = Shot {
                        id: *next_shot_id,
                        damage: t.attack_damage,
                        target: Some(ShotTarget { enemy_id: e.id, x: e.x, y: e.y }),
                        x: t.x,
                        y: t.y + SHOT_LAUNCH_HEIGHT,
                        animation_timer: Timer::new(SHOT_FRAME_MS, TimerMode::Repeating),
                        frame: 0,
                    };
                    assert(shot == launched(t.x as int, t.y as int, t.attack_damage, enemies@[k as int],
                        first + volley(towers@.take(i as int), enemies@, first).len()));
                    shots.push(shot);
                    *next_shot_id = *next_shot_id + 1;
                }
            },
            None => {},
        }
        proof {
            assert(shots@ =~= old(shots)@ + volley(ts, enemies@, first));
        }
        i = i + 1;
    }
    proof {
        assert(towers@.take(n as int) =~= towers@);
        assert(towers@ =~= all_ticked(old(towers)@, delta_ms));
    }
}

/// Index of the enemy with the given id, if there is one.
pub open spec fn enemy_index(s: Seq<Enemy>, id: u64) -> Option<int> {
    if exists|k: int| 0 <= k < s.len() && s[k].id == id {
        Some(choose|k: int| 0 <= k < s.len() && s[k].id == id)
    } else {
        None
    }
}

/// Finds the enemy with the given id.
pub fn find_enemy(enemies: &Vec<Enemy>, id: u64) -> (r: Option<usize>)
    requires
        enemies_ok(enemies@),
    ensures
        r matches Some(k) ==> enemy_index(enemies@, id) == Some(k as int),
        r is None ==> enemy_index(enemies@, id) is None,
{
    let mut i: usize = 0;
    while i < enemies.len()
        invariant
            i <= enemies@.len(),
            forall|j: int| 0 <= j < i ==> (#[trigger] enemies@[j]).id != id,
            enemies_ok(enemies@),
        decreases enemies@.len() - i,
    {
        if enemies[i].id == id {
            proof {
                let c = choose|k: int| 0 <= k < enemies@.len() && enemies@[k].id == id;
                if c < i { assert(enemies@[c].id != id); }
                if c > i { assert(enemies@[i as int].id < enemies@[c].id); }
            }
            return Some(i);
        }
        i = i + 1;
    }
    None
}

/// Distance a projectile covers in `delta_ms` milliseconds.
pub open spec fn shot_step_len(delta_ms: int) -> int {
    SHOT_SPEED * delta_ms / 1000
}

/// What one projectile does in a step: the enemies and gold after it, the
/// projectile if it is still in flight, and whether it dealt its damage.
///
/// A projectile whose target is alive flies at it and records its position;
/// once close enough its impact frames advance, and on the last frame the
/// damage is dealt (life saturating at 0), the enemy is removed with a
/// reward if its life is gone, and the projectile is removed. A projectile
/// whose target is gone restarts its frames and flies to the target's last
/// known position, and is removed without damage on landing there or on
/// leaving the play area.
pub open spec fn shot_step(es: Seq<Enemy>, gold: u16, s: Shot, wave: u8, delta_ms: u64)
    -> (Seq<Enemy>, u16, Option<Shot>, bool)
{
    let step = shot_step_len(delta_ms as int);
    match s.target {
        None => (es, gold, Some(s), false),
        Some(t) => match enemy_index(es, t.enemy_id) {
            Some(k) => {
                let e = es[k];
                let p = approach(s.x as int, s.y as int, e.x as int, e.y as int, step);
                let flown = Shot {
                    x: p.0 as i64,
                    y: p.1 as i64,
                    target: Some(ShotTarget { enemy_id: t.enemy_id, x: e.x, y: e.y }),
                    ..s
                };
                if dist_sq(p.0, p.1, e.x as int, e.y as int) <= SHOT_HURT_DISTANCE_SQ {
                    let timer = Timer::ticked(s.animation_timer, delta_ms);
                    let frame = s.frame + if timer.just_finished_spec() { 1int } else { 0 };
                    if frame >= SHOT_LAST_FRAME {
                        let life = if e.life >= s.damage { e.life - s.damage } else { 0int };
                        if life == 0 {
                            let g = gold + reward_spec(0, wave as int);
                            (es.remove(k), (if g > u16::MAX { u16::MAX as int } else { g }) as u16, None, true)
                        } else {
                            (es.update(k, Enemy { life: life as u16, ..e }), gold, None, true)
                        }
                    } else {
                        (es, gold, Some(Shot { animation_timer: timer, frame: frame as u8, ..flown }), false)
                    }
                } else {
                    (es, gold, Some(flown), false)
                }
            },
            None => {
                let p = approach(s.x as int, s.y as int, t.x as int, t.y as int, step);
                let landed = dist_sq(p.0, p.1, t.x as int, t.y as int) <= SHOT_LAND_DISTANCE_SQ;
                let q = if landed { (t.x as int, t.y as int) } else { p };
                let far = dist_sq(q.0, q.1, 0, 0) > DESPAWN_SHOT_RANGE * DESPAWN_SHOT_RANGE;
                if landed || far {
                    (es, gold, None, false)
                } else {
                    (es, gold, Some(Shot { x: q.0 as i64, y: q.1 as i64, frame: 0, ..s }), false)
                }
            },
        },
    }
}

/// Runs one projectile's step (see `shot_step`); returns the projectile if it
/// is still in flight and whether it dealt its damage.
pub fn resolve_shot(enemies: &mut Vec<Enemy>, gold: &mut Gold, shot: Shot, wave: u8, delta_ms: u64)
    -> (r: (Option<Shot>, bool))
    requires
        enemies_ok(old(enemies)@),
        shot.wf(),
        delta_ms <= MAX_DELTA_MS,
    ensures
        (final(enemies)@, final(gold).0, r.0, r.1) == shot_step(old(enemies)@, old(gold).0, shot, wave, delta_ms),
        enemies_ok(final(enemies)@),
        bounds_kept(old(enemies)@, final(enemies)@),
        r.0 matches Some(x) ==> x.wf() && x.id == shot.id,
{
    let t = match shot.target {
        None => {
            
            return (Some(shot), false);
        },
        Some(t) => t,
    };
    match find_enemy(enemies, t.enemy_id) {
        Some(k) => resolve_live_shot(enemies, gold, shot, t, k, wave, delta_ms),
        None => {
            
            let r = resolve_lost_shot(shot, t, delta_ms);
            (r, false)
        },
    }
}

#[verifier::rlimit(100)]
fn resolve_live_shot(enemies: &mut Vec<Enemy>, gold: &mut Gold, shot: Shot, t: ShotTarget, k: usize, wave: u8, delta_ms: u64)
    -> (r: (Option<Shot>, bool))
    requires
        enemies_ok(old(enemies)@),
        shot.wf(),
        shot.target == Some(t),
        enemy_index(old(enemies)@, t.enemy_id) == Some(k as int),
        delta_ms <= MAX_DELTA_MS,
    ensures
        (final(enemies)@, final(gold).0, r.0, r.1) == shot_step(old(enemies)@, old(gold).0, shot, wave, delta_ms),
        enemies_ok(final(enemies)@),
        bounds_kept(old(enemies)@, final(enemies)@),
        r.0 matches Some(x) ==> x.wf() && x.id == shot.id,
{
    let step: i128 = (SHOT_SPEED as i128) * (delta_ms as i128) / 1000;
    let e = enemies[k];
    assert(enemies@[k as int].wf());
    let (nx, ny) = approach_exec(shot.x, shot.y, e.x, e.y, step);
    let flown = Shot {
        x: nx,
        y: ny,
        target: Some(ShotTarget { enemy_id: t.enemy_id, x: e.x, y: e.y }),
        ..shot
    };
    if distance_sq(nx, ny, e.x, e.y) <= SHOT_HURT_DISTANCE_SQ {
        let mut timer = shot.animation_timer;
        timer.tick(delta_ms);
        let frame: u8 = if timer.just_finished() { shot.frame + 1 } else { shot.frame };
        if frame >= SHOT_LAST_FRAME {
            let life = e.life.saturating_sub(shot.damage);
            if life == 0 {
                let reward = kill_reward(0, wave);
                enemies.remove(k);
                gold.0 = gold.0.saturating_add(reward);
                proof { lemma_remove_keeps_order(old(enemies)@, k as int); }
            } else {
                enemies.set(k, Enemy { life, ..e });
                proof { lemma_update_keeps_order(old(enemies)@, k as int, Enemy { life, ..e }); }
            }
            (None, true)
        } else {
            
            (Some(Shot { animation_timer: timer, frame, ..flown }), false)
        }
    } else {
        
        (Some(flown), false)
    }
}

fn resolve_lost_shot(shot: Shot, t: ShotTarget, delta_ms: u64) -> (r: Option<Shot>)
    requires
        shot.wf(),
        shot.target == Some(t),
        delta_ms <= MAX_DELTA_MS,
    ensures
        forall|es: Seq<Enemy>, gold: u16, wave: u8| enemy_index(es, t.enemy_id) is None ==>
            #[trigger] shot_step(es, gold, shot, wave, delta_ms) == (es, gold, r, false),
        r matches Some(x) ==> x.wf() && x.id == shot.id,
{
    let step: i128 = (SHOT_SPEED as i128) * (delta_ms as i128) / 1000;
    let (px, py) = approach_exec(shot.x, shot.y, t.x, t.y, step);
    let landed = distance_sq(px, py, t.x, t.y) <= SHOT_LAND_DISTANCE_SQ;
    let (qx, qy) = if landed { (t.x, t.y) } else { (px, py) };
    let far = distance_sq(qx, qy, 0, 0) > DESPAWN_SHOT_RANGE * DESPAWN_SHOT_RANGE;
    if landed || far {
        None
    } else {
        Some(Shot { x: qx, y: qy, frame: 0, ..shot })
    }
}

/// Every enemy id in `s` is below `bound`.
pub open spec fn ids_below(s: Seq<Enemy>, bound: int) -> bool {
    forall|i: int| 0 <= i < s.len() ==> (#[trigger] s[i]).id < bound
}

/// Every bound on the ids of `a` is a bound on the ids of `b`.
pub open spec fn bounds_kept(a: Seq<Enemy>, b: Seq<Enemy>) -> bool {
    forall|n: int| ids_below(a, n) ==> #[trigger] ids_below(b, n)
}

proof fn lemma_remove_keeps_order(s: Seq<Enemy>, k: int)
    requires
        enemies_ok(s),
        0 <= k < s.len(),
    ensures
        enemies_ok(s.remove(k)),
        bounds_kept(s, s.remove(k)),
{
    let r = s.remove(k);
    assert forall|n: int| ids_below(s, n) implies #[trigger] ids_below(r, n) by {
        assert forall|i: int| 0 <= i < r.len() implies (#[trigger] r[i]).id < n by {
            let j = if i < k { i } else { i + 1 };
            assert(r[i] == s[j]);
        }
    }
    assert forall|i: int, j: int| 0 <= i < j < r.len() implies r[i].id < r[j].id by {
        let a = if i < k { i } else { i + 1 };
        let b = if j < k { j } else { j + 1 };
        assert(r[i] == s[a] && r[j] == s[b]);
    }
    assert forall|i: int| 0 <= i < r.len() implies (#[trigger] r[i]).wf() by {
        let a = if i < k { i } else { i + 1 };
        assert(r[i] == s[a]);
    }
}

proof fn lemma_update_keeps_order(s: Seq<Enemy>, k: int, e: Enemy)
    requires
        enemies_ok(s),
        0 <= k < s.len(),
        e.wf(),
        e.id == s[k].id,
    ensures
        enemies_ok(s.update(k, e)),
        bounds_kept(s, s.update(k, e)),
{
    let r = s.update(k, e);
    assert forall|n: int| ids_below(s, n) implies #[trigger] ids_below(r, n) by {
        assert forall|i: int| 0 <= i < r.len() implies (#[trigger] r[i]).id < n by {
            assert(r[i].id == s[i].id);
        }
    }
    assert forall|i: int, j: int| 0 <= i < j < r.len() implies r[i].id < r[j].id by {
        assert(r[i].id == s[i].id && r[j].id == s[j].id);
    }
}

/// All projectiles resolved in order, each against the enemies and gold left
/// by those before it: the enemies and gold after all of them, the
/// projectiles still in flight, and the ids of those that dealt damage.
pub open spec fn resolve_all(es: Seq<Enemy>, gold: u16, shots: Seq<Shot>, wave: u8, delta_ms: u64)
    -> (Seq<Enemy>, u16, Seq<Shot>, Seq<u64>)
    decreases shots.len(),
{
    if shots.len() == 0 {
        (es, gold, Seq::empty(), Seq::empty())
    } else {
        let (e1, g1, k1, h1) = resolve_all(es, gold, shots.drop_last(), wave, delta_ms);
        let s = shots.last();
        let (e2, g2, out, hit) = shot_step(e1, g1, s, wave, delta_ms);
        (
            e2,
            g2,
            match out { Some(x) => k1.push(x), None => k1 },
            if hit { h1.push(s.id) } else { h1 },
        )
    }
}

/// Every projectile id in `s` is below `bound`.
pub open spec fn shot_ids_below(s: Seq<Shot>, bound: int) -> bool {
    forall|i: int| 0 <= i < s.len() ==> (#[trigger] s[i]).id < bound
}

/// Every id in `s` is below `bound`.
pub open spec fn all_below(s: Seq<u64>, bound: int) -> bool {
    forall|i: int| 0 <= i < s.len() ==> #[trigger] s[i] < bound
}

/// Ids in strictly increasing order, hence distinct.
pub open spec fn increasing(s: Seq<u64>) -> bool {
    forall|i: int, j: int| 0 <= i < j < s.len() ==> s[i] < s[j]
}

/// Resolves every projectile (see `resolve_all`) and returns the ids of those
/// that dealt damage. Each of them has dealt it once and is gone: no id is
/// returned twice and none stays among the projectiles in flight.
pub fn resolve_shots(enemies: &mut Vec<Enemy>, shots: &mut Vec<Shot>, gold: &mut Gold, wave: u8, delta_ms: u64)
    -> (hits: Vec<u64>)
    requires
        enemies_ok(old(enemies)@),
        shots_ok(old(shots)@),
        delta_ms <= MAX_DELTA_MS,
    ensures
        (final(enemies)@, final(gold).0, final(shots)@, hits@)
            == resolve_all(old(enemies)@, old(gold).0, old(shots)@, wave, delta_ms),
        enemies_ok(final(enemies)@),
        bounds_kept(old(enemies)@, final(enemies)@),
        shots_ok(final(shots)@),
        final(gold).0 >= old(gold).0,
        increasing(hits@),
        forall|a: int, b: int| 0 <= a < final(shots)@.len() && 0 <= b < hits@.len()
            ==> final(shots)@[a].id != hits@[b],
        forall|n: int| #[trigger] shot_ids_below(old(shots)@, n)
            ==> shot_ids_below(final(shots)@, n) && all_below(hits@, n),
{
    let n = shots.len();
    let mut kept: Vec<Shot> = Vec::new();
    let mut hits: Vec<u64> = Vec::new();
    let mut i: usize = 0;
    while i < n
        invariant
            n == shots@.len(),
            *shots == *old(shots),
            i <= n,
            delta_ms <= MAX_DELTA_MS,
            shots_ok(shots@),
            (enemies@, gold.0, kept@, hits@) == resolve_all(old(enemies)@, old(gold).0, shots@.take(i as int), wave, delta_ms),
            enemies_ok(enemies@),
            bounds_kept(old(enemies)@, enemies@),
            gold.0 >= old(gold).0,
            shots_ok(kept@),
            increasing(hits@),
            i < n && kept@.len() > 0 ==> kept@.last().id < shots@[i as int].id,
            i < n ==> all_below(hits@, shots@[i as int].id as int),
            forall|a: int, b: int| 0 <= a < kept@.len() && 0 <= b < hits@.len() ==> kept@[a].id != hits@[b],
            forall|m: int| #[trigger] shot_ids_below(shots@, m) ==> shot_ids_below(kept@, m) && all_below(hits@, m),
        decreases n - i,
    {
        let s = shots[i];
        proof {
            assert(shots@.take(i as int + 1).drop_last() =~= shots@.take(i as int));
            assert(shots@.take(i as int + 1).last() == s);
            assert(shots@[i as int].wf());
        }
        let ghost e0 = enemies@;
        let (out, hit) = resolve_shot(enemies, gold, s, wave, delta_ms);
        proof {
            assert forall|m: int| ids_below(old(enemies)@, m) implies #[trigger] ids_below(enemies@, m) by {
                assert(ids_below(e0, m));
            }
        }
        let ghost k0 = kept@;
        let ghost h0 = hits@;
        match out {
            Some(x) => { kept.push(x); },
            None => {},
        }
        if hit {
            hits.push(s.id);
        }
        proof {
            if i + 1 < n {
                assert(s.id < shots@[i + 1].id);
            }
            assert forall|m: int| #[trigger] shot_ids_below(shots@, m) implies shot_ids_below(kept@, m) && all_below(hits@, m) by {
                assert(shots@[i as int].id < m);
                assert(shot_ids_below(k0, m) && all_below(h0, m));
            }
            assert forall|a: int, b: int| 0 <= a < kept@.len() && 0 <= b < hits@.len() implies kept@[a].id != hits@[b] by {
                if a < k0.len() && b < h0.len() {
                    assert(k0[a] == kept@[a] && h0[b] == hits@[b]);
                } else if a < k0.len() {
                    assert(k0[a].id <= k0.last().id);
                } else {
                    assert(h0[b] < s.id);
                }
            }
        }
        i = i + 1;
    }
    proof {
        assert(shots@.take(n as int) =~= shots@);
    }
    *shots = kept;
    hits
}

/// Removes every enemy.
pub fn despawn_all_enemies_in_game_over(enemies: &mut Vec<Enemy>)
    ensures
        final(enemies)@.len() == 0,
{
    enemies.clear();
}

/// Removes every projectile.
pub fn delete_all_shots_on_building(shots: &mut Vec<Shot>)
    ensures
        final(shots)@.len() == 0,
{
    shots.clear();
}

/// The enemy made from a spawn order under the id `id`, at the route's start.
pub open spec fn spawned_enemy(sp: EnemySpawn, id: int) -> Enemy {
    Enemy {
        id: id as u64,
        life: sp.life,
        speed: sp.speed,
        x: SPAWN_X,
        y: SPAWN_Y,
        segment: 0,
        archetype: sp.archetype,
    }
}

/// The state of a game as plain values.
pub ghost struct GameModel {
    pub state: GameState,
    pub gold: u16,
    pub lifes: u8,
    pub wave_control: WaveControl,
    pub enemies: Seq<Enemy>,
    pub towers: Seq<Tower>,
    pub shots: Seq<Shot>,
    pub next_enemy_id: u64,
    pub next_shot_id: u64,
}

/// What one tick reports besides the new state.
pub struct TickReport {
    /// Ids of the projectiles that dealt damage.
    pub hits: Vec<u64>,
    /// The number of the wave that just started, for the ledger.
    pub wave_started: Option<u8>,
}

/// Lives left after `n` breaches, never below zero.
pub open spec fn lives_after(lifes: u8, n: int) -> u8 {
    (if lifes >= n { lifes - n } else { 0 }) as u8
}

/// The combat passes of a tick in the attacking phase: spawning, movement,
/// breaches, tower fire and projectiles. Returns the new model, the hits, and
/// whether no life is left.
pub open spec fn combat_step(m: GameModel, delta_ms: u64) -> (GameModel, Seq<u64>, bool) {
    let (w1, sp) = WaveControl::after_spawn(m.wave_control, delta_ms);
    let es0 = match sp { Some(x) => m.enemies.push(spawned_enemy(x, m.next_enemy_id as int)), None => m.enemies };
    let next_enemy = if sp is Some { m.next_enemy_id + 1 } else { m.next_enemy_id as int };
    let es1 = all_moved(es0, delta_ms as int);
    let es2 = survivors(es1);
    let lifes = lives_after(m.lifes, breach_count(es1));
    let ts = all_ticked(m.towers, delta_ms);
    let v = volley(ts, es2, m.next_shot_id as int);
    let (es3, gold, shots, hits) = resolve_all(es2, m.gold, m.shots + v, w1.wave_count, delta_ms);
    (
        GameModel {
            gold,
            lifes,
            wave_control: w1,
            enemies: es3,
            towers: ts,
            shots,
            next_enemy_id: next_enemy as u64,
            next_shot_id: (m.next_shot_id + v.len()) as u64,
            ..m
        },
        hits,
        lifes == 0,
    )
}

/// One tick of the game: the model after it, the ids of projectiles that
/// dealt damage, and the number of a wave that started.
///
/// Nothing happens after the game is over. While attacking, the combat
/// passes run; when they leave no life the game is over, the director is
/// reset and the map cleared. Otherwise wave progression runs in either
/// phase and may switch it; going back to building clears the projectiles.
pub open spec fn stepped(m: GameModel, delta_ms: u64) -> (GameModel, Seq<u64>, Option<u8>) {
    if m.state == GameState::GameOver {
        (m, Seq::empty(), None)
    } else {
        let (m1, hits, over) = if m.state == GameState::Attacking {
            combat_step(m, delta_ms)
        } else {
            (m, Seq::empty(), false)
        };
        if over {
            (
                GameModel {
                    state: GameState::GameOver,
                    wave_control: WaveControl::after_reset(m1.wave_control),
                    enemies: Seq::empty(),
                    shots: Seq::empty(),
                    ..m1
                },
                hits,
                None,
            )
        } else {
            let (w2, ev) = WaveControl::progressed(m1.wave_control, delta_ms, m1.enemies.len() > 0);
            let st = match ev.next_state { Some(x) => x, None => m1.state };
            let to_building = m1.state == GameState::Attacking && st == GameState::Building;
            (
                GameModel {
                    state: st,
                    wave_control: w2,
                    shots: if to_building { Seq::empty() } else { m1.shots },
                    ..m1
                },
                hits,
                ev.wave_started,
            )
        }
    }
}

/// The whole simulation state.
pub struct Game {
    pub state: GameState,
    pub gold: Gold,
    pub lifes: Lifes,
    pub wave_control: WaveControl,
    pub enemies: Vec<Enemy>,
    pub towers: Vec<Tower>,
    pub shots: Vec<Shot>,
    pub next_enemy_id: u64,
    pub next_shot_id: u64,
}

impl Game {
    pub open spec fn view(&self) -> GameModel {
        GameModel {
            state: self.state,
            gold: self.gold.0,
            lifes: self.lifes.0,
            wave_control: self.wave_control,
            enemies: self.enemies@,
            towers: self.towers@,
            shots: self.shots@,
            next_enemy_id: self.next_enemy_id,
            next_shot_id: self.next_shot_id,
        }
    }

    pub open spec fn wf(&self) -> bool {
        &&& self.wave_control.wf()
        &&& enemies_ok(self.enemies@)
        &&& ids_below(self.enemies@, self.next_enemy_id as int)
        &&& forall|i: int| 0 <= i < self.towers@.len() ==> (#[trigger] self.towers@[i]).wf()
        &&& shots_ok(self.shots@)
        &&& shot_ids_below(self.shots@, self.next_shot_id as int)
    }

    /// A game at its start: building, with the starting gold and lives and
    /// an empty map.
    pub fn new(archetype_count: u8) -> (r: Game)
        requires
            archetype_count < u8::MAX,
        ensures
            r.wf(),
            r.state == GameState::Building,
            r.gold.0 == INITIAL_PLAYER_GOLD,
            r.lifes.0 == MAX_LIFES,
            r.wave_control == WaveControl::new_spec(archetype_count),
            r.enemies@.len() == 0,
            r.towers@.len() == 0,
            r.shots@.len() == 0,
            r.next_enemy_id == 0,
            r.next_shot_id == 0,
    {
        Game {
            state: GameState::Building,
            gold: Gold(INITIAL_PLAYER_GOLD),
            lifes: Lifes(MAX_LIFES),
            wave_control: WaveControl::new(archetype_count),
            enemies: Vec::new(),
            towers: Vec::new(),
            shots: Vec::new(),
            next_enemy_id: 0,
            next_shot_id: 0,
        }
    }

    /// Places a tower of a type and level at (x, y).
    pub fn add_tower(&mut self, x: i64, y: i64, tower_type: TowerType, level: u8)
        requires
            old(self).wf(),
            -TOWER_COORD_LIMIT <= x <= TOWER_COORD_LIMIT,
            -TOWER_COORD_LIMIT <= y <= TOWER_COORD_LIMIT,
            level <= MAX_TOWER_LEVEL,
        ensures
            final(self).wf(),
            final(self).towers@.len() == old(self).towers@.len() + 1,
            final(self).towers@.drop_last() == old(self).towers@,
            final(self).towers@.last().x == x,
            final(self).towers@.last().y == y,
            final(self).towers@.last().tower_type == tower_type,
            final(self).towers@.last().level == level,
            final(self).towers@.last().attack_damage == damage_spec(tower_type, level as nat),
            final(self).towers@.last().attack_speed
                == Timer::new_spec(interval_spec(tower_type, level as nat) as u64, TimerMode::Repeating),
            final(self)@ == (GameModel { towers: final(self).towers@, ..old(self)@ }),
    {
        let t = Tower::new(x, y, tower_type, level);
        self.towers.push(t);
        assert(self.towers@.drop_last() =~= old(self).towers@);
    }

    /// Advances the game by `delta_ms` milliseconds (see `stepped`).
    pub fn tick(&mut self, delta_ms: u64) -> (r: TickReport)
        requires
            old(self).wf(),
            delta_ms <= MAX_DELTA_MS,
            old(self).next_enemy_id < u64::MAX,
            old(self).next_shot_id + old(self).towers@.len() <= u64::MAX,
        ensures
            final(self).wf(),
            (final(self)@, r.hits@, r.wave_started) == stepped(old(self)@, delta_ms),
            final(self).gold.0 >= old(self).gold.0,
            final(self).lifes.0 <= old(self).lifes.0,
            final(self).wave_control.spawned_count_in_wave <= MAX_ENEMIES_PER_WAVE,
            final(self).wave_control.wave_count >= old(self).wave_control.wave_count
                || final(self).state == GameState::GameOver,
            increasing(r.hits@),
            all_below(r.hits@, final(self).next_shot_id as int),
            forall|a: int, b: int| 0 <= a < final(self).shots@.len() && 0 <= b < r.hits@.len()
                ==> final(self).shots@[a].id != r.hits@[b],
            final(self).next_shot_id >= old(self).next_shot_id,
    {
        let mut hits: Vec<u64> = Vec::new();
        if matches!(self.state, GameState::GameOver) {
            return TickReport { hits, wave_started: None };
        }
        let mut over = false;
        if matches!(self.state, GameState::Attacking) {
            let ghost m = self@;
            match self.wave_control.spawn_wave(delta_ms) {
                Some(sp) => {
                    let e = Enemy {
                        id: self.next_enemy_id,
                        life: sp.life,
                        speed: sp.speed,
                        x: SPAWN_X,
                        y: SPAWN_Y,
                        segment: 0,
                        archetype: sp.archetype,
                    };
                    let ghost before = self.enemies@;
                    self.enemies.push(e);
                    proof {
                        assert forall|i: int, j: int| 0 <= i < j < self.enemies@.len()
                            implies self.enemies@[i].id < self.enemies@[j].id by {
                            if j == before.len() { assert(before[i].id < self.next_enemy_id); }
                        }
                    }
                    self.next_enemy_id = self.next_enemy_id + 1;
                },
                None => {},
            }
            move_enemies(&mut self.enemies, delta_ms);
            let ghost es1 = self.enemies@;
            proof {
                assert(enemies_ok(es1));
                assert(ids_below(es1, self.next_enemy_id as int));
            }
            over = game_over(&mut self.enemies, &mut self.lifes);
            proof {
                assert(ids_below(self.enemies@, self.next_enemy_id as int));
            }
            spawn_shots(&mut self.towers, &self.enemies, &mut self.shots, &mut self.next_shot_id, delta_ms);
            assert(shot_ids_below(self.shots@, self.next_shot_id as int));
            hits = resolve_shots(&mut self.enemies, &mut self.shots, &mut self.gold, self.wave_control.wave_count, delta_ms);
            proof {
                assert(shot_ids_below(self.shots@, self.next_shot_id as int));
            }
        }
        if over {
            self.state = GameState::GameOver;
            self.wave_control.reset_wave_control_on_game_over();
            despawn_all_enemies_in_game_over(&mut self.enemies);
            delete_all_shots_on_building(&mut self.shots);
            proof {
                assert(self.enemies@ =~= Seq::<Enemy>::empty());
                assert(self.shots@ =~= Seq::<Shot>::empty());
            }
            return TickReport { hits, wave_started: None };
        }
        let alive = self.enemies.len() > 0;
        let ev = self.wave_control.wave_control(delta_ms, alive);
        match ev.next_state {
            Some(next) => {
                if matches!(self.state, GameState::Attacking) && matches!(next, GameState::Building) {
                    delete_all_shots_on_building(&mut self.shots);
                    assert(self.shots@ =~= Seq::<Shot>::empty());
                }
                self.state = next;
            },
            None => {},
        }
        TickReport { hits, wave_started: ev.wave_started }
    }
}

proof fn lemma_resolve_all_gold(es: Seq<Enemy>, gold: u16, shots: Seq<Shot>, wave: u8, delta_ms: u64)
    ensures
        resolve_all(es, gold, shots, wave, delta_ms).1 >= gold,
    decreases shots.len(),
{
    if shots.len() > 0 {
        lemma_resolve_all_gold(es, gold, shots.drop_last(), wave, delta_ms);
    }
}

/// Within a tick gold never drops and lives never grow: gold only comes
/// from kills and lives only go, one per breach, never below zero.
pub proof fn lemma_economy_monotonic(m: GameModel, delta_ms: u64)
    ensures
        stepped(m, delta_ms).0.gold >= m.gold,
        stepped(m, delta_ms).0.lifes <= m.lifes,
{
    if m.state == GameState::Attacking {
        let (w1, sp) = WaveControl::after_spawn(m.wave_control, delta_ms);
        let es0 = match sp { Some(x) => m.enemies.push(spawned_enemy(x, m.next_enemy_id as int)), None => m.enemies };
        let es1 = all_moved(es0, delta_ms as int);
        let es2 = survivors(es1);
        let ts = all_ticked(m.towers, delta_ms);
        let v = volley(ts, es2, m.next_shot_id as int);
        lemma_resolve_all_gold(es2, m.gold, m.shots + v, w1.wave_count, delta_ms);
        lemma_breach_count_nonneg(es1);
    }
}

/// No sequence of ticks spawns more than a wave's quota.
pub proof fn lemma_game_quota(m: GameModel, delta_ms: u64)
    requires
        m.wave_control.wf(),
    ensures
        stepped(m, delta_ms).0.wave_control.spawned_count_in_wave <= MAX_ENEMIES_PER_WAVE,
{
    WaveControl::lemma_quota_kept(m.wave_control, delta_ms, true);
    if m.state == GameState::Attacking {
        let w1 = WaveControl::after_spawn(m.wave_control, delta_ms).0;
        assert(w1.wf()) by {
            Timer::lemma_ticked_wf(m.wave_control.time_between_spawns, delta_ms);
        }
        WaveControl::lemma_quota_kept(w1, delta_ms, true);
        WaveControl::lemma_quota_kept(w1, delta_ms, false);
    } else {
        WaveControl::lemma_quota_kept(m.wave_control, delta_ms, false);
    }
}

/// Projectile ids in strictly increasing order.
pub open spec fn shot_ids_increasing(s: Seq<Shot>) -> bool {
    forall|i: int, j: int| 0 <= i < j < s.len() ==> s[i].id < s[j].id
}

/// Whether some projectile of `s` has the id `id`.
pub open spec fn has_shot(s: Seq<Shot>, id: u64) -> bool {
    exists|j: int| 0 <= j < s.len() && s[j].id == id
}

proof fn lemma_shot_step_keeps_id(es: Seq<Enemy>, gold: u16, s: Shot, wave: u8, delta_ms: u64)
    ensures
        shot_step(es, gold, s, wave, delta_ms).2 matches Some(x) ==> x.id == s.id,
        shot_step(es, gold, s, wave, delta_ms).3 ==> shot_step(es, gold, s, wave, delta_ms).2 is None,
{
}

/// Resolution keeps projectile ids in order, reports each damaging one once,
/// removes it, and invents no id.
proof fn lemma_resolve_all_ids(es: Seq<Enemy>, gold: u16, shots: Seq<Shot>, wave: u8, delta_ms: u64)
    requires
        shot_ids_increasing(shots),
    ensures
        ({
            let r = resolve_all(es, gold, shots, wave, delta_ms);
            &&& shot_ids_increasing(r.2)
            &&& increasing(r.3)
            &&& forall|a: int, b: int| 0 <= a < r.2.len() && 0 <= b < r.3.len() ==> r.2[a].id != r.3[b]
            &&& forall|a: int| 0 <= a < r.2.len() ==> has_shot(shots, #[trigger] r.2[a].id)
            &&& forall|b: int| 0 <= b < r.3.len() ==> has_shot(shots, #[trigger] r.3[b])
        }),
    decreases shots.len(),
{
    if shots.len() > 0 {
        let pre = shots.drop_last();
        let last = shots.last();
        assert(shot_ids_increasing(pre));
        lemma_resolve_all_ids(es, gold, pre, wave, delta_ms);
        let (e1, g1, k1, h1) = resolve_all(es, gold, pre, wave, delta_ms);
        lemma_shot_step_keeps_id(e1, g1, last, wave, delta_ms);
        let r = resolve_all(es, gold, shots, wave, delta_ms);
        assert forall|a: int| 0 <= a < k1.len() implies k1[a].id < last.id by {
            assert(has_shot(pre, k1[a].id));
            let j = choose|j: int| 0 <= j < pre.len() && pre[j].id == k1[a].id;
            assert(shots[j] == pre[j]);
        }
        assert forall|b: int| 0 <= b < h1.len() implies h1[b] < last.id by {
            assert(has_shot(pre, h1[b]));
            let j = choose|j: int| 0 <= j < pre.len() && pre[j].id == h1[b];
            assert(shots[j] == pre[j]);
        }
        assert forall|a: int| 0 <= a < r.2.len() implies has_shot(shots, #[trigger] r.2[a].id) by {
            if a < k1.len() {
                assert(r.2[a] == k1[a]);
                assert(has_shot(pre, k1[a].id));
                let j = choose|j: int| 0 <= j < pre.len() && pre[j].id == k1[a].id;
                assert(shots[j] == pre[j]);
            } else {
                assert(shots[shots.len() - 1] == last);
            }
        }
        assert forall|b: int| 0 <= b < r.3.len() implies has_shot(shots, #[trigger] r.3[b]) by {
            if b < h1.len() {
                assert(r.3[b] == h1[b]);
                assert(has_shot(pre, h1[b]));
                let j = choose|j: int| 0 <= j < pre.len() && pre[j].id == h1[b];
                assert(shots[j] == pre[j]);
            } else {
                assert(shots[shots.len() - 1] == last);
            }
        }
        assert forall|a: int, b: int| 0 <= a < r.2.len() && 0 <= b < r.3.len() implies r.2[a].id != r.3[b] by {
            if a < k1.len() && b < h1.len() {
                assert(r.2[a] == k1[a] && r.3[b] == h1[b]);
            } else if a < k1.len() {
                assert(r.2[a] == k1[a]);
            } else {
                assert(r.3[b] == h1[b]);
            }
        }
    }
}

proof fn lemma_volley_ids(ts: Seq<Tower>, es: Seq<Enemy>, first: int)
    requires
        0 <= first,
        first + ts.len() <= u64::MAX,
    ensures
        volley(ts, es, first).len() <= ts.len(),
        forall|k: int| 0 <= k < volley(ts, es, first).len() ==> #[trigger] volley(ts, es, first)[k].id == first + k,
    decreases ts.len(),
{
    if ts.len() > 0 {
        lemma_volley_ids(ts.drop_last(), es, first);
    }
}

/// The projectile facts a game keeps: ids in increasing order below the next
/// id to hand out, with room left to number a volley from every tower.
pub open spec fn shots_numbered(m: GameModel) -> bool {
    &&& shot_ids_increasing(m.shots)
    &&& forall|i: int| 0 <= i < m.shots.len() ==> (#[trigger] m.shots[i]).id < m.next_shot_id
    &&& m.next_shot_id + m.towers.len() <= u64::MAX
}

/// One tick keeps projectile numbering, removes every projectile that dealt
/// damage, and reports only projectiles that existed before or were launched
/// during the tick.
proof fn lemma_tick_shot_ids(m: GameModel, delta_ms: u64)
    requires
        shots_numbered(m),
    ensures
        ({
            let (g, h, _) = stepped(m, delta_ms);
            &&& shot_ids_increasing(g.shots)
            &&& forall|i: int| 0 <= i < g.shots.len() ==> (#[trigger] g.shots[i]).id < g.next_shot_id
            &&& g.next_shot_id >= m.next_shot_id
            &&& g.next_shot_id <= m.next_shot_id + m.towers.len()
            &&& g.towers.len() == m.towers.len()
            &&& increasing(h)
            &&& all_below(h, g.next_shot_id as int)
            &&& forall|a: int, b: int| 0 <= a < g.shots.len() && 0 <= b < h.len() ==> g.shots[a].id != h[b]
            &&& forall|b: int| 0 <= b < h.len() ==> has_shot(m.shots, #[trigger] h[b]) || h[b] >= m.next_shot_id
        }),
{
    if m.state == GameState::Attacking {
        let (w1, sp) = WaveControl::after_spawn(m.wave_control, delta_ms);
        let es0 = match sp { Some(x) => m.enemies.push(spawned_enemy(x, m.next_enemy_id as int)), None => m.enemies };
        let es1 = all_moved(es0, delta_ms as int);
        let es2 = survivors(es1);
        let ts = all_ticked(m.towers, delta_ms);
        let v = volley(ts, es2, m.next_shot_id as int);
        let input = m.shots + v;
        lemma_volley_ids(ts, es2, m.next_shot_id as int);
        let next = m.next_shot_id + v.len();
        assert forall|i: int| 0 <= i < input.len() implies (#[trigger] input[i]).id < next
            && (i < m.shots.len() ==> input[i] == m.shots[i])
            && (i >= m.shots.len() ==> input[i].id >= m.next_shot_id) by {
            if i >= m.shots.len() {
                assert(input[i] == v[i - m.shots.len()]);
            }
        }
        assert(shot_ids_increasing(input)) by {
            assert forall|i: int, j: int| 0 <= i < j < input.len() implies input[i].id < input[j].id by {
                if j < m.shots.len() {
                } else if i < m.shots.len() {
                    assert(input[i] == m.shots[i]);
                } else {
                    assert(input[i] == v[i - m.shots.len()]);
                    assert(input[j] == v[j - m.shots.len()]);
                }
            }
        }
        lemma_resolve_all_ids(es2, m.gold, input, w1.wave_count, delta_ms);
        let r = resolve_all(es2, m.gold, input, w1.wave_count, delta_ms);
        assert forall|i: int| 0 <= i < r.2.len() implies (#[trigger] r.2[i]).id < next by {
            assert(has_shot(input, r.2[i].id));
        }
        assert forall|b: int| 0 <= b < r.3.len() implies r.3[b] < next
            && (has_shot(m.shots, #[trigger] r.3[b]) || r.3[b] >= m.next_shot_id) by {
            assert(has_shot(input, r.3[b]));
            let j = choose|j: int| 0 <= j < input.len() && input[j].id == r.3[b];
            if j < m.shots.len() {
                assert(input[j] == m.shots[j]);
            }
        }
    }
}

/// A projectile deals its damage at most once: no projectile reported as
/// having dealt damage in one tick is reported again in the next, whatever
/// the two ticks last, including when its target died in between.
pub proof fn lemma_damage_at_most_once(m: GameModel, delta1: u64, delta2: u64)
    requires
        shot_ids_increasing(m.shots),
        forall|i: int| 0 <= i < m.shots.len() ==> (#[trigger] m.shots[i]).id < m.next_shot_id,
        m.next_shot_id + 2 * m.towers.len() <= u64::MAX,
    ensures
        ({
            let (g1, h1, _) = stepped(m, delta1);
            let (g2, h2, _) = stepped(g1, delta2);
            &&& increasing(h1)
            &&& forall|b: int, c: int| 0 <= b < h1.len() && 0 <= c < h2.len() ==> h1[b] != h2[c]
            &&& forall|a: int, b: int| 0 <= a < g1.shots.len() && 0 <= b < h1.len() ==> g1.shots[a].id != h1[b]
        }),
{
    lemma_tick_shot_ids(m, delta1);
    let (g1, h1, _) = stepped(m, delta1);
    lemma_tick_shot_ids(g1, delta2);
    let (g2, h2, _) = stepped(g1, delta2);
    assert forall|b: int, c: int| 0 <= b < h1.len() && 0 <= c < h2.len() implies h1[b] != h2[c] by {
        if has_shot(g1.shots, h2[c]) {
            let j = choose|j: int| 0 <= j < g1.shots.len() && g1.shots[j].id == h2[c];
            assert(g1.shots[j].id != h1[b]);
        } else {
            assert(h1[b] < g1.next_shot_id);
        }
    }
}

} // verus!
