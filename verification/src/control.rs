//! Player movement intent.
//!
//! The engine layer polls the input devices; this module turns the
//! pressed-key snapshot into the tick's movement intent: jump and
//! crouch flags, an optional dash displacement, and the desired walk
//! velocity. Directions are in the player's local frame — the engine
//! rotates them by the camera yaw — and are normalised with the same
//! zero-safe rule as every other velocity, so a dash or walk command
//! never exceeds its configured magnitude.

use crate::fixvec::{norm_sq, normalize_spec, v3, Vec3, MILLI, V3};
use vstd::prelude::*;

verus! {

/// Desired walk speed, in milli-units per time unit.
pub const WALK_SPEED: i64 = 10_000;

/// Dash displacement magnitude, in milli-units.
pub const DASH_DISTANCE: i64 = 20_000;

/// The pressed-key snapshot of one tick.
#[derive(Clone, Copy, PartialEq, Eq, Structural, Debug)]
pub struct ControlInput {
    pub forward: bool,
    pub back: bool,
    pub left: bool,
    pub right: bool,
    pub jump: bool,
    pub crouch: bool,
    pub dash: bool,
}

/// The tick's movement intent, in the player's local frame.
#[derive(Clone, Copy, PartialEq, Eq, Structural, Debug)]
pub struct ControlIntent {
    pub jump: bool,
    pub crouch: bool,
    /// Dash displacement, present only while the dash key is held.
    pub dash: Option<Vec3>,
    /// Desired walk velocity; zero when no direction key is held.
    pub walk: Vec3,
}

/// The raw movement direction the keys add up to: one unit per axis,
/// opposite keys cancelling.
pub open spec fn move_direction_spec(input: ControlInput) -> V3 {
    v3(
        (if input.right { MILLI as int } else { 0 }) - (if input.left { MILLI as int } else { 0 }),
        0,
        (if input.back { MILLI as int } else { 0 }) - (if input.forward { MILLI as int } else { 0 }),
    )
}

/// Turn the key snapshot into the tick's movement intent. The walk
/// velocity is the key direction scaled to the walk speed; the dash
/// displacement, when the dash key is held, the same direction scaled
/// to the dash distance; both are zero-safe when no key is held.
pub fn apply_controls(input: ControlInput) -> (intent: ControlIntent)
    ensures
        intent.jump == input.jump,
        intent.crouch == input.crouch,
        intent.walk@ == normalize_spec(move_direction_spec(input), WALK_SPEED as int),
        (match intent.dash {
            Option::Some(d) => input.dash && d@ == normalize_spec(
                move_direction_spec(input),
                DASH_DISTANCE as int,
            ),
            Option::None => !input.dash,
        }),
        norm_sq(intent.walk@) <= (WALK_SPEED as int) * (WALK_SPEED as int),
{
    let x: i64 = (if input.right {
        1000i64
    } else {
        0i64
    }) - (if input.left {
        1000i64
    } else {
        0i64
    });
    let z: i64 = (if input.back {
        1000i64
    } else {
        0i64
    }) - (if input.forward {
        1000i64
    } else {
        0i64
    });
    let direction = Vec3::new(x, 0, z);
    let walk = direction.normalize_to(WALK_SPEED);
    let dash: Option<Vec3> = if input.dash {
        Option::Some(direction.normalize_to(DASH_DISTANCE))
    } else {
        Option::None
    };
    ControlIntent { jump: input.jump, crouch: input.crouch, dash, walk }
}

} // verus!
