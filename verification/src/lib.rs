//! Verified core of a real-time gameplay simulation: waypoint-path
//! construction, platform traversal, hostile steering with separation,
//! and collision damage resolution with health and cooldown bookkeeping.
//!
//! All quantities are exact fixed-point integers in milli-units (one
//! thousandth of a world distance unit, health point, or time unit), so
//! every rule is stated and proved without floating point. The engine
//! layer around this crate converts to and from its own float vectors
//! at the boundary.

pub mod combat;
pub mod control;
pub mod cooldown;
pub mod fixvec;
pub mod game_state;
pub mod health;
pub mod platform;
pub mod steering;
pub mod waypoints;
