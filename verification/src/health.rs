//! Per-entity damageable state.
//!
//! Health is a fixed-point count of milli-points; a fresh entity has
//! 100 points. Event-driven damage (projectile and melee hits) is
//! applied unclamped, so a value may go below zero transiently; the
//! clamp that the surrounding layer applies before anything reads the
//! value is [`Health::clamp_floor`], and the read-only value exposed
//! for display is clamped to the zero-to-full band.

use vstd::prelude::*;

verus! {

/// Health of a freshly spawned entity, in milli-points.
pub const FULL_HEALTH: i64 = 100_000;

/// Largest health magnitude the ledger accepts, far above anything the
/// simulation produces; it keeps every subtraction free of overflow.
pub const HEALTH_LIMIT: i64 = 0x1_0000_0000;

/// Largest damage a single hit may carry.
pub const DAMAGE_LIMIT: i64 = 0x10_0000;

/// The value with its negative part cut off.
pub open spec fn clamp_floor_spec(h: int) -> int {
    if h < 0 {
        0
    } else {
        h
    }
}

/// The value clamped into the zero-to-full band for display.
pub open spec fn display_spec(h: int) -> int {
    if h < 0 {
        0
    } else if h > FULL_HEALTH as int {
        FULL_HEALTH as int
    } else {
        h
    }
}

/// Damageable state of an entity, in milli-points.
#[derive(Clone, Copy, PartialEq, Eq, Structural, Debug)]
pub struct Health(pub i64);

impl Health {
    /// Health stays within the band every rule of this crate keeps it in.
    pub open spec fn wf(self) -> bool {
        -HEALTH_LIMIT as int <= self.0 as int <= HEALTH_LIMIT as int
    }

    /// A freshly spawned entity has full health.
    pub fn new_full() -> (r: Health)
        ensures
            r.0 == FULL_HEALTH,
            r.wf(),
    {
        Health(FULL_HEALTH)
    }

    pub fn from_points(value: i64) -> (r: Health)
        requires
            -HEALTH_LIMIT <= value <= HEALTH_LIMIT,
        ensures
            r.0 == value,
            r.wf(),
    {
        Health(value)
    }

    /// Event-driven damage: subtracted as is, so the value may pass
    /// below zero until the external clamp runs.
    pub fn apply_damage(&mut self, amount: i64)
        requires
            old(self).wf(),
            0 <= amount <= DAMAGE_LIMIT,
        ensures
            final(self).0 as int == old(self).0 as int - amount as int,
    {
        self.0 = self.0 - amount;
    }

    /// Damage clamped at zero, the rule of the hazard path: the result
    /// never goes negative however much damage arrives.
    pub fn apply_damage_clamped(&mut self, amount: i64)
        requires
            old(self).wf(),
            0 <= amount <= DAMAGE_LIMIT,
        ensures
            final(self).0 as int == clamp_floor_spec(old(self).0 as int - amount as int),
            final(self).0 >= 0,
            final(self).wf(),
    {
        let next: i64 = self.0 - amount;
        if next < 0 {
            self.0 = 0;
        } else {
            self.0 = next;
        }
    }

    /// The external clamp: cuts any transiently negative value to zero.
    pub fn clamp_floor(&mut self)
        requires
            old(self).wf(),
        ensures
            final(self).0 as int == clamp_floor_spec(old(self).0 as int),
            final(self).0 >= 0,
            final(self).wf(),
    {
        if self.0 < 0 {
            self.0 = 0;
        }
    }

    /// Read-only value for the display layer, clamped to the
    /// zero-to-full band.
    pub fn display_value(&self) -> (r: i64)
        ensures
            r as int == display_spec(self.0 as int),
            0 <= r <= FULL_HEALTH,
    {
        if self.0 < 0 {
            0
        } else if self.0 > FULL_HEALTH {
            FULL_HEALTH
        } else {
            self.0
        }
    }
}

/// What is left of `h` after a run of damage events, each subtracted
/// as is.
pub open spec fn after_damage(h: int, damages: Seq<int>) -> int
    decreases damages.len(),
{
    if damages.len() == 0 {
        h
    } else {
        after_damage(h, damages.drop_last()) - damages.last()
    }
}

/// However many damage events accumulate in a tick, once the external
/// clamp is applied the health value is never below zero.
pub proof fn lemma_clamped_health_nonneg(h: int, damages: Seq<int>)
    ensures
        clamp_floor_spec(after_damage(h, damages)) >= 0,
{
}

} // verus!
