//! The rearm clock that gates repeat hazard damage against the player.
//!
//! One timer serialises every hazard trigger: it counts down
//! monotonically each tick, clamped at zero, and snaps back to its full
//! duration when a trigger fires. A fresh timer is ready, so the first
//! contact with a hazard deals damage at once.

use vstd::prelude::*;

verus! {

/// The fixed rearm duration: one time unit, in milli-units.
pub const COOLDOWN_DURATION: u64 = 1000;

/// Countdown gating repeat hazard damage.
#[derive(Clone, Copy, PartialEq, Eq, Structural, Debug)]
pub struct SpikeDamageCooldown {
    /// Time left until the next trigger may fire; zero means ready.
    pub remaining: u64,
    /// Value `remaining` snaps back to on a trigger.
    pub duration: u64,
}

/// The countdown after `delta` has passed: monotone, clamped at zero.
pub open spec fn count_down_spec(remaining: int, delta: int) -> int {
    if remaining <= delta {
        0
    } else {
        remaining - delta
    }
}

impl SpikeDamageCooldown {
    /// The countdown never holds more time than a full rearm.
    pub open spec fn wf(self) -> bool {
        self.remaining <= self.duration
    }

    /// A fresh timer: ready at once, rearming to `duration`.
    pub fn new(duration: u64) -> (r: SpikeDamageCooldown)
        ensures
            r.remaining == 0,
            r.duration == duration,
            r.wf(),
    {
        SpikeDamageCooldown { remaining: 0, duration }
    }

    /// Advance the clock by `delta`; the countdown never goes negative.
    pub fn tick(&mut self, delta: u64)
        ensures
            final(self).remaining as int == count_down_spec(
                old(self).remaining as int,
                delta as int,
            ),
            final(self).duration == old(self).duration,
            old(self).wf() ==> final(self).wf(),
    {
        if self.remaining <= delta {
            self.remaining = 0;
        } else {
            self.remaining = self.remaining - delta;
        }
    }

    /// Whether a trigger may fire now.
    pub fn finished(&self) -> (r: bool)
        ensures
            r == (self.remaining == 0),
    {
        self.remaining == 0
    }

    /// A trigger fired: snap back to the full duration.
    pub fn reset(&mut self)
        ensures
            final(self).remaining == old(self).duration,
            final(self).duration == old(self).duration,
            final(self).wf(),
    {
        self.remaining = self.duration;
    }
}

} // verus!
