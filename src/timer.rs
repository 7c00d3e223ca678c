//! A countdown timer driven by elapsed milliseconds.
use vstd::prelude::*;

verus! {

/// Whether a timer restarts after completing an interval or stops there.
#[derive(Clone, Copy, Debug, PartialEq, Eq, Structural)]
pub enum TimerMode {
    Once,
    Repeating,
}

/// A timer that accumulates elapsed milliseconds towards a fixed duration.
#[derive(Clone, Copy, Debug)]
pub struct Timer {
    pub duration_ms: u64,
    pub elapsed_ms: u64,
    pub mode: TimerMode,
    pub paused: bool,
    pub finished: bool,
    /// How many intervals completed during the latest `tick`.
    pub times_finished_this_tick: u64,
}

impl Timer {
    /// A timer is well formed when its duration is positive and the elapsed
    /// time never passes it.
    pub open spec fn wf(&self) -> bool {
        &&& self.duration_ms > 0
        &&& self.elapsed_ms <= self.duration_ms
        &&& (self.mode == TimerMode::Repeating ==> self.elapsed_ms < self.duration_ms)
        &&& (self.mode == TimerMode::Once ==> (self.finished <==> self.elapsed_ms == self.duration_ms))
        &&& (self.times_finished_this_tick > 0 ==> self.finished)
    }

    /// Whether the latest `tick` completed at least one interval.
    pub open spec fn just_finished_spec(&self) -> bool {
        self.times_finished_this_tick > 0
    }

    /// The state after advancing `t` by `delta_ms` milliseconds.
    pub open spec fn ticked(t: Timer, delta_ms: u64) -> Timer {
        if t.paused {
            Timer {
                times_finished_this_tick: 0,
                finished: if t.mode == TimerMode::Repeating { false } else { t.finished },
                ..t
            }
        } else if t.mode == TimerMode::Once && t.finished {
            Timer { times_finished_this_tick: 0, ..t }
        } else {
            let total = t.elapsed_ms + delta_ms;
            if total < t.duration_ms {
                Timer { elapsed_ms: total as u64, finished: false, times_finished_this_tick: 0, ..t }
            } else if t.mode == TimerMode::Repeating {
                Timer {
                    elapsed_ms: (total % t.duration_ms as int) as u64,
                    finished: true,
                    times_finished_this_tick: (total / t.duration_ms as int) as u64,
                    ..t
                }
            } else {
                Timer { elapsed_ms: t.duration_ms, finished: true, times_finished_this_tick: 1, ..t }
            }
        }
    }

    /// A fresh, running timer of the given duration.
    pub open spec fn new_spec(duration_ms: u64, mode: TimerMode) -> Timer {
        Timer {
            duration_ms,
            elapsed_ms: 0,
            mode,
            paused: false,
            finished: false,
            times_finished_this_tick: 0,
        }
    }

    /// A fresh, running timer of the given duration (see `new_spec`).
    pub fn new(duration_ms: u64, mode: TimerMode) -> (r: Timer)
        requires
            duration_ms > 0,
        ensures
            r.wf(),
            r == Timer::new_spec(duration_ms, mode),
            r.duration_ms == duration_ms,
            r.mode == mode,
            r.elapsed_ms == 0,
            !r.paused,
            !r.finished,
            !r.just_finished_spec(),
    {
        Timer {
            duration_ms,
            elapsed_ms: 0,
            mode,
            paused: false,
            finished: false,
            times_finished_this_tick: 0,
        }
    }

    /// Advancing keeps a timer well formed.
    pub proof fn lemma_ticked_wf(t: Timer, delta_ms: u64)
        requires
            t.wf(),
        ensures
            Timer::ticked(t, delta_ms).wf(),
            Timer::ticked(t, delta_ms).duration_ms == t.duration_ms,
            Timer::ticked(t, delta_ms).mode == t.mode,
    {
        let total = t.elapsed_ms + delta_ms;
        if t.mode == TimerMode::Repeating && total >= t.duration_ms {
            vstd::arithmetic::div_mod::lemma_mod_bound(total, t.duration_ms as int);
            vstd::arithmetic::div_mod::lemma_div_pos_is_pos(total, t.duration_ms as int);
            vstd::arithmetic::div_mod::lemma_div_is_ordered_by_denominator(total, 1, t.duration_ms as int);
        }
    }

    /// Advances the timer by `delta_ms` unless it is paused or a one-shot
    /// timer that already finished; a paused repeating timer stops counting as
    /// finished.
    pub fn tick(&mut self, delta_ms: u64)
        requires
            old(self).wf(),
        ensures
            final(self).wf(),
            *final(self) == Timer::ticked(*old(self), delta_ms),
    {
        if self.paused {
            self.times_finished_this_tick = 0;
            if matches!(self.mode, TimerMode::Repeating) {
                self.finished = false;
            }
            return;
        }
        if matches!(self.mode, TimerMode::Once) && self.finished {
            self.times_finished_this_tick = 0;
            return;
        }
        let room = self.duration_ms - self.elapsed_ms;
        if delta_ms < room {
            self.elapsed_ms = self.elapsed_ms + delta_ms;
            self.finished = false;
            self.times_finished_this_tick = 0;
        } else {
            match self.mode {
                TimerMode::Repeating => {
                    // elapsed + delta, split as whole intervals plus a remainder,
                    // computed without forming the possibly overflowing sum
                    let rest = delta_ms - room;
                    let times = rest / self.duration_ms + 1;
                    let rem = rest % self.duration_ms;
                    proof {
                        let total = self.elapsed_ms + delta_ms;
                        let d = self.duration_ms as int;
                        let r = rest as int;
                        vstd::arithmetic::div_mod::lemma_fundamental_div_mod(r, d);
                        assert(total == (times as int) * d + rem as int) by (nonlinear_arith)
                            requires
                                total == r + d,
                                r == d * (r / d) + r % d,
                                times as int == r / d + 1,
                                rem as int == r % d;
                        vstd::arithmetic::div_mod::lemma_fundamental_div_mod_converse(
                            total, d, times as int, rem as int);
                    }
                    self.elapsed_ms = rem;
                    self.finished = true;
                    self.times_finished_this_tick = times;
                },
                TimerMode::Once => {
                    self.elapsed_ms = self.duration_ms;
                    self.finished = true;
                    self.times_finished_this_tick = 1;
                },
            }
        }
    }

    /// Whether the latest `tick` completed at least one interval.
    pub fn just_finished(&self) -> (r: bool)
        ensures
            r == self.just_finished_spec(),
    {
        self.times_finished_this_tick > 0
    }

    /// Stops the timer from advancing.
    pub fn pause(&mut self)
        ensures
            *final(self) == (Timer { paused: true, ..*old(self) }),
    {
        self.paused = true;
    }

    /// Lets the timer advance again.
    pub fn unpause(&mut self)
        ensures
            *final(self) == (Timer { paused: false, ..*old(self) }),
    {
        self.paused = false;
    }

    /// Restarts the current interval; the paused flag is kept.
    pub fn reset(&mut self)
        requires
            old(self).wf(),
        ensures
            final(self).wf(),
            *final(self) == (Timer {
                elapsed_ms: 0,
                finished: false,
                times_finished_this_tick: 0,
                ..*old(self)
            }),
    {
        self.elapsed_ms = 0;
        self.finished = false;
        self.times_finished_this_tick = 0;
    }
}

} // verus!
