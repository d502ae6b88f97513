//! One-shot countdown timers that can be paused, counted in milliseconds.
use vstd::prelude::*;

verus! {

/// Fuse of a freshly placed bomb, in milliseconds.
pub const BOMB_FUSE_MS: u64 = 3000;

/// Lifetime of a fire, in milliseconds.
pub const FIRE_MS: u64 = 500;

/// A one-shot countdown. It finishes once `elapsed` reaches `duration`;
/// while paused it does not advance.
#[derive(Clone, Copy, Debug, PartialEq, Eq, Structural)]
pub struct Timer {
    pub duration: u64,
    pub elapsed: u64,
    pub paused: bool,
}

impl Timer {
    pub open spec fn wf(self) -> bool {
        self.elapsed <= self.duration
    }

    /// A running timer that has not advanced yet.
    pub open spec fn fresh(duration: u64) -> Timer {
        Timer { duration, elapsed: 0, paused: false }
    }

    pub open spec fn is_finished(self) -> bool {
        self.elapsed >= self.duration
    }

    pub open spec fn remaining_spec(self) -> int {
        self.duration - self.elapsed
    }

    /// The timer after `delta` milliseconds; elapsed time stops at the duration.
    pub open spec fn ticked(self, delta: u64) -> Timer {
        if self.paused {
            self
        } else if self.elapsed + delta >= self.duration {
            Timer { elapsed: self.duration, ..self }
        } else {
            Timer { elapsed: (self.elapsed + delta) as u64, ..self }
        }
    }

    pub open spec fn with_pause(self, paused: bool) -> Timer {
        Timer { paused, ..self }
    }

    pub fn new(duration: u64) -> (r: Timer)
        ensures
            r == Timer::fresh(duration),
            r.wf(),
    {
        Timer { duration, elapsed: 0, paused: false }
    }

    /// Advances the timer by `delta` milliseconds unless it is paused.
    pub fn tick(&mut self, delta: u64)
        requires
            old(self).wf(),
        ensures
            *final(self) == old(self).ticked(delta),
            final(self).wf(),
    {
        if !self.paused {
            if delta >= self.duration - self.elapsed {
                self.elapsed = self.duration;
            } else {
                self.elapsed = self.elapsed + delta;
            }
        }
    }

    pub fn finished(&self) -> (r: bool)
        ensures
            r == self.is_finished(),
    {
        self.elapsed >= self.duration
    }

    pub fn remaining(&self) -> (r: u64)
        requires
            self.wf(),
        ensures
            r == self.remaining_spec(),
    {
        self.duration - self.elapsed
    }

    pub fn is_paused(&self) -> (r: bool)
        ensures
            r == self.paused,
    {
        self.paused
    }

    pub fn pause(&mut self)
        ensures
            *final(self) == old(self).with_pause(true),
    {
        self.paused = true;
    }

    pub fn unpause(&mut self)
        ensures
            *final(self) == old(self).with_pause(false),
    {
        self.paused = false;
    }
}

} // verus!
