//! The wave director: spawn cadence, the per-wave quota, difficulty scaling
//! and the progression from one wave to the next.
use vstd::prelude::*;
use vstd::arithmetic::power2::{pow2, lemma_pow2_unfold, lemma_pow2_strictly_increases};
use crate::timer::{Timer, TimerMode};
use crate::path::{MAX_ENEMY_SPEED};

verus! {

pub const MAX_ENEMIES_PER_WAVE: u8 = 25;
pub const TIME_BETWEEN_WAVES_MS: u64 = 15_000;
pub const TIME_BETWEEN_SPAWNS_MS: u64 = 1_500;
pub const INITIAL_ENEMY_LIFE: u16 = 60;
/// Speed of a first-wave enemy, in thousandths of a unit per second.
pub const INITIAL_ENEMY_SPEED: u64 = 75_000;

/// The phase of the game.
#[derive(Clone, Copy, Debug, PartialEq, Eq, Structural, Hash)]
pub enum GameState {
    Building,
    Attacking,
    GameOver,
}

impl Default for GameState {
    fn default() -> (r: GameState)
        ensures
            r == GameState::Building,
    {
        GameState::Building
    }
}

/// Life of an enemy of wave `w`: 60 doubled once per wave, saturating at the
/// largest `u16`.
pub open spec fn life_for_wave(w: nat) -> int {
    let l = INITIAL_ENEMY_LIFE * pow2(w);
    if l > u16::MAX { u16::MAX as int } else { l }
}

/// Speed of an enemy of wave `w`: 75 units per second, raised by 5% per wave
/// (rounded down to a thousandth) and capped at 300 units per second.
pub open spec fn speed_for_wave(w: nat) -> int
    decreases w,
{
    if w == 0 {
        INITIAL_ENEMY_SPEED as int
    } else {
        let s = speed_for_wave((w - 1) as nat) * 105 / 100;
        if s > MAX_ENEMY_SPEED { MAX_ENEMY_SPEED as int } else { s }
    }
}

/// Life of the enemies spawned in wave `wave`.
pub fn enemy_life(wave: u8) -> (r: u16)
    ensures
        r == life_for_wave(wave as nat),
{
    let mut life: u16 = INITIAL_ENEMY_LIFE;
    let mut i: u8 = 0;
    proof {
        reveal(vstd::arithmetic::power::pow);
        assert(pow2(0) == 1);
    }
    while i < wave
        invariant
            i <= wave,
            life == life_for_wave(i as nat),
        decreases wave - i,
    {
        proof {
            let p = pow2(i as nat);
            lemma_pow2_unfold((i + 1) as nat);
            assert(INITIAL_ENEMY_LIFE * pow2((i + 1) as nat) == 2 * (INITIAL_ENEMY_LIFE * p))
                by (nonlinear_arith) requires pow2((i + 1) as nat) == 2 * p;
        }
        if life > u16::MAX / 2 {
            life = u16::MAX;
        } else {
            life = life * 2;
        }
        i = i + 1;
    }
    life
}

/// Speed of the enemies spawned in wave `wave`.
pub fn enemy_speed(wave: u8) -> (r: u64)
    ensures
        r == speed_for_wave(wave as nat),
        r <= MAX_ENEMY_SPEED,
{
    let mut speed: u64 = INITIAL_ENEMY_SPEED;
    let mut i: u8 = 0;
    while i < wave
        invariant
            i <= wave,
            speed == speed_for_wave(i as nat),
            speed <= MAX_ENEMY_SPEED,
        decreases wave - i,
    {
        let s = speed * 105 / 100;
        speed = if s > MAX_ENEMY_SPEED { MAX_ENEMY_SPEED } else { s };
        i = i + 1;
    }
    speed
}

/// Later waves are never easier: enemy life and speed do not decrease as the
/// wave index grows.
pub proof fn lemma_difficulty_monotonic(w1: nat, w2: nat)
    requires
        w1 <= w2,
    ensures
        life_for_wave(w1) <= life_for_wave(w2),
        speed_for_wave(w1) <= speed_for_wave(w2),
    decreases w2 - w1,
{
    if w1 < w2 {
        lemma_pow2_strictly_increases(w1, w2);
        lemma_difficulty_monotonic(w1, (w2 - 1) as nat);
        lemma_speed_bounded((w2 - 1) as nat);
    }
}

proof fn lemma_speed_bounded(w: nat)
    ensures
        0 <= speed_for_wave(w) <= MAX_ENEMY_SPEED,
    decreases w,
{
    if w > 0 {
        lemma_speed_bounded((w - 1) as nat);
    }
}

/// What the director hands out when an enemy is due.
#[derive(Clone, Copy, Debug, PartialEq, Eq, Structural)]
pub struct EnemySpawn {
    pub life: u16,
    pub speed: u64,
    /// Template of the wave's enemies, the wave index itself.
    pub archetype: u8,
}

/// What one step of wave progression asks of the rest of the game.
#[derive(Clone, Copy, Debug, PartialEq, Eq, Structural)]
pub struct WaveEvents {
    /// The phase to switch to, if any.
    pub next_state: Option<GameState>,
    /// The number of the wave that just started, to be reported outside.
    pub wave_started: Option<u8>,
}

/// Controls enemy waves: spawn timing, the quota of each wave and progression.
#[derive(Clone, Copy, Debug)]
pub struct WaveControl {
    /// Current wave number.
    pub wave_count: u8,
    /// Interval between enemy spawns within a wave.
    pub time_between_spawns: Timer,
    /// Number of enemies spawned in the current wave.
    pub spawned_count_in_wave: u8,
    /// Cooldown before the first wave and between waves.
    pub time_between_waves: Timer,
    /// Whether the first wave has been released.
    pub first_wave_spawned: bool,
    /// Number of enemy templates; the waves end after this many.
    pub archetype_count: u8,
}

impl WaveControl {
    pub open spec fn wf(&self) -> bool {
        &&& self.time_between_spawns.wf()
        &&& self.time_between_spawns.duration_ms == TIME_BETWEEN_SPAWNS_MS
        &&& self.time_between_spawns.mode == TimerMode::Repeating
        &&& self.time_between_waves.wf()
        &&& self.time_between_waves.duration_ms == TIME_BETWEEN_WAVES_MS
        &&& self.time_between_waves.mode == TimerMode::Once
        &&& self.spawned_count_in_wave <= MAX_ENEMIES_PER_WAVE
        &&& self.archetype_count < u8::MAX
        &&& self.wave_count <= self.archetype_count
        &&& (self.spawned_count_in_wave > 0 ==> self.wave_count < self.archetype_count)
    }

    /// The director at the start of a game.
    pub open spec fn new_spec(archetype_count: u8) -> WaveControl {
        WaveControl {
            wave_count: 0,
            time_between_spawns: Timer {
                duration_ms: TIME_BETWEEN_SPAWNS_MS,
                elapsed_ms: 0,
                mode: TimerMode::Repeating,
                paused: false,
                finished: false,
                times_finished_this_tick: 0,
            },
            spawned_count_in_wave: 0,
            time_between_waves: Timer {
                duration_ms: TIME_BETWEEN_WAVES_MS,
                elapsed_ms: 0,
                mode: TimerMode::Once,
                paused: false,
                finished: false,
                times_finished_this_tick: 0,
            },
            first_wave_spawned: false,
            archetype_count,
        }
    }

    /// The director at the start of a game (see `new_spec`).
    pub fn new(archetype_count: u8) -> (r: WaveControl)
        requires
            archetype_count < u8::MAX,
        ensures
            r.wf(),
            r == WaveControl::new_spec(archetype_count),
            r.wave_count == 0,
            r.spawned_count_in_wave == 0,
            !r.first_wave_spawned,
            !r.time_between_waves.paused,
            r.time_between_waves.elapsed_ms == 0,
            r.time_between_spawns.elapsed_ms == 0,
            r.archetype_count == archetype_count,
    {
        WaveControl {
            wave_count: 0,
            time_between_spawns: Timer::new(TIME_BETWEEN_SPAWNS_MS, TimerMode::Repeating),
            spawned_count_in_wave: 0,
            time_between_waves: Timer::new(TIME_BETWEEN_WAVES_MS, TimerMode::Once),
            first_wave_spawned: false,
            archetype_count,
        }
    }

    /// The director after advancing the spawn cadence, and the enemy handed
    /// out: one is due when the waves have not run out, the quota is not met
    /// and an interval just completed. Once the waves run out nothing moves.
    pub open spec fn after_spawn(w: WaveControl, delta_ms: u64) -> (WaveControl, Option<EnemySpawn>) {
        if w.wave_count == w.archetype_count {
            (w, None)
        } else {
            let t = Timer::ticked(w.time_between_spawns, delta_ms);
            if w.spawned_count_in_wave < MAX_ENEMIES_PER_WAVE && t.just_finished_spec() {
                (
                    WaveControl {
                        time_between_spawns: t,
                        spawned_count_in_wave: (w.spawned_count_in_wave + 1) as u8,
                        ..w
                    },
                    Some(EnemySpawn {
                        life: life_for_wave(w.wave_count as nat) as u16,
                        speed: speed_for_wave(w.wave_count as nat) as u64,
                        archetype: w.wave_count,
                    }),
                )
            } else {
                (WaveControl { time_between_spawns: t, ..w }, None)
            }
        }
    }

    /// Advances the spawn cadence and hands out an enemy when one is due (see
    /// `after_spawn`).
    pub fn spawn_wave(&mut self, delta_ms: u64) -> (r: Option<EnemySpawn>)
        requires
            old(self).wf(),
        ensures
            final(self).wf(),
            (*final(self), r) == WaveControl::after_spawn(*old(self), delta_ms),
            r matches Some(sp) ==> sp.speed <= MAX_ENEMY_SPEED,
    {
        if self.wave_count == self.archetype_count {
            return None;
        }
        self.time_between_spawns.tick(delta_ms);
        if self.spawned_count_in_wave < MAX_ENEMIES_PER_WAVE && self.time_between_spawns.just_finished() {
            let life = enemy_life(self.wave_count);
            let speed = enemy_speed(self.wave_count);
            self.spawned_count_in_wave = self.spawned_count_in_wave + 1;
            Some(EnemySpawn { life, speed, archetype: self.wave_count })
        } else {
            None
        }
    }

    /// The cooldown timer stopped and rewound.
    pub open spec fn halted(t: Timer) -> Timer {
        Timer { paused: true, elapsed_ms: 0, finished: false, times_finished_this_tick: 0, ..t }
    }

    /// The cooldown timer running again from zero.
    pub open spec fn restarted(t: Timer) -> Timer {
        Timer { paused: false, elapsed_ms: 0, finished: false, times_finished_this_tick: 0, ..t }
    }

    /// One step of wave progression, `enemies_alive` telling whether any enemy
    /// is still on the map.
    ///
    /// The cooldown timer advances. Before the first wave, its completion
    /// releases the first wave. Once the quota of the current wave is spawned
    /// and no enemy is left, a paused cooldown restarts and the game goes back
    /// to building; when that cooldown completes the next wave starts.
    pub open spec fn progressed(w: WaveControl, delta_ms: u64, enemies_alive: bool) -> (WaveControl, WaveEvents) {
        let t0 = Timer::ticked(w.time_between_waves, delta_ms);
        let first = !w.first_wave_spawned && t0.just_finished_spec();
        let t1 = if first { Self::halted(t0) } else { t0 };
        let next1 = if first { Some(GameState::Attacking) } else { None };
        let done = w.spawned_count_in_wave == MAX_ENEMIES_PER_WAVE && !enemies_alive;
        let resume = done && t1.paused;
        let t2 = if resume { Self::restarted(t1) } else { t1 };
        let next2 = if resume { Some(GameState::Building) } else { next1 };
        let advance = done && t2.just_finished_spec();
        let wave = if advance { w.wave_count + 1 } else { w.wave_count as int };
        let w2 = WaveControl {
            wave_count: wave as u8,
            spawned_count_in_wave: if advance { 0 } else { w.spawned_count_in_wave },
            time_between_waves: if advance { Self::halted(t2) } else { t2 },
            first_wave_spawned: w.first_wave_spawned || first,
            ..w
        };
        let ev = WaveEvents {
            next_state: if advance { Some(GameState::Attacking) } else { next2 },
            wave_started: if advance { Some(wave as u8) } else { None },
        };
        (w2, ev)
    }

    /// Runs one step of wave progression (see `progressed`).
    pub fn wave_control(&mut self, delta_ms: u64, enemies_alive: bool) -> (r: WaveEvents)
        requires
            old(self).wf(),
        ensures
            final(self).wf(),
            (*final(self), r) == WaveControl::progressed(*old(self), delta_ms, enemies_alive),
    {
        self.time_between_waves.tick(delta_ms);
        let mut next_state: Option<GameState> = None;
        let mut wave_started: Option<u8> = None;
        if !self.first_wave_spawned {
            if self.time_between_waves.just_finished() {
                next_state = Some(GameState::Attacking);
                self.time_between_waves.pause();
                self.time_between_waves.reset();
                self.first_wave_spawned = true;
            }
        }
        let all_enemies_killed = !enemies_alive;
        let wave_fully_spawned = self.spawned_count_in_wave == MAX_ENEMIES_PER_WAVE;
        if wave_fully_spawned && all_enemies_killed {
            if self.time_between_waves.paused {
                self.time_between_waves.unpause();
                self.time_between_waves.reset();
                next_state = Some(GameState::Building);
            }
            if self.time_between_waves.just_finished() {
                self.spawned_count_in_wave = 0;
                self.wave_count = self.wave_count + 1;
                wave_started = Some(self.wave_count);
                self.time_between_waves.pause();
                self.time_between_waves.reset();
                next_state = Some(GameState::Attacking);
            }
        }
        WaveEvents { next_state, wave_started }
    }

    /// Releases the first wave once the initial cooldown completes; does
    /// nothing after the wave counter has left 0.
    pub fn control_first_wave(&mut self, delta_ms: u64) -> (r: Option<GameState>)
        requires
            old(self).wf(),
        ensures
            final(self).wf(),
            old(self).wave_count != 0 ==> *final(self) == *old(self) && r.is_none(),
            old(self).wave_count == 0 ==> {
                let t = Timer::ticked(old(self).time_between_waves, delta_ms);
                &&& *final(self) == (WaveControl {
                    time_between_waves: if t.just_finished_spec() { Self::halted(t) } else { t },
                    ..*old(self)
                })
                &&& r == (if t.just_finished_spec() { Some(GameState::Attacking) } else { None })
            },
    {
        if self.wave_count == 0 {
            self.time_between_waves.tick(delta_ms);
            if self.time_between_waves.just_finished() {
                self.time_between_waves.pause();
                self.time_between_waves.reset();
                return Some(GameState::Attacking);
            }
        }
        None
    }

    /// The director put back to its state at the start of a game.
    pub open spec fn after_reset(w: WaveControl) -> WaveControl {
        WaveControl {
            wave_count: 0,
            spawned_count_in_wave: 0,
            time_between_waves: Self::restarted(w.time_between_waves),
            time_between_spawns: Timer {
                elapsed_ms: 0,
                finished: false,
                times_finished_this_tick: 0,
                ..w.time_between_spawns
            },
            first_wave_spawned: false,
            ..w
        }
    }

    /// Puts the director back to its state at the start of a game.
    pub fn reset_wave_control_on_game_over(&mut self)
        requires
            old(self).wf(),
        ensures
            final(self).wf(),
            *final(self) == WaveControl::after_reset(*old(self)),
    {
        self.wave_count = 0;
        self.spawned_count_in_wave = 0;
        self.time_between_waves.unpause();
        self.time_between_waves.reset();
        self.time_between_spawns.reset();
        self.first_wave_spawned = false;
    }

    /// The quota of a wave is never exceeded, whatever step is taken, and the
    /// wave counter never goes back.
    pub proof fn lemma_quota_kept(w: WaveControl, delta_ms: u64, enemies_alive: bool)
        requires
            w.wf(),
        ensures
            WaveControl::after_spawn(w, delta_ms).0.spawned_count_in_wave <= MAX_ENEMIES_PER_WAVE,
            WaveControl::after_spawn(w, delta_ms).0.wave_count == w.wave_count,
            WaveControl::progressed(w, delta_ms, enemies_alive).0.spawned_count_in_wave
                <= MAX_ENEMIES_PER_WAVE,
            WaveControl::progressed(w, delta_ms, enemies_alive).0.wave_count >= w.wave_count,
    {
    }
}

} // verus!
