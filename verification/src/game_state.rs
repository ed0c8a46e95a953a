//! Scene-readiness and the top-level game state.
//!
//! The simulation holds in its loading state until the scene has
//! loaded and at least one waypoint marker exists, then enters the
//! in-game state, where path construction runs once before the
//! steady-state ticking begins.

use vstd::prelude::*;

verus! {

/// Marker for the player entity.
#[derive(Clone, Copy, PartialEq, Eq, Structural, Debug)]
pub struct Player;

/// The two top-level states of a session.
#[derive(Clone, Copy, PartialEq, Eq, Structural, Debug)]
pub enum GameState {
    /// The authored scene is still streaming in.
    Loading,
    /// Path construction has run and the simulation ticks.
    InGame,
}

/// The readiness rule: the scene asset has loaded and at least one
/// waypoint marker is present.
pub fn scene_ready(scene_loaded: bool, waypoint_count: usize) -> (r: bool)
    ensures
        r == (scene_loaded && waypoint_count > 0),
{
    scene_loaded && waypoint_count > 0
}

/// The loading-state transition: leave `Loading` exactly when the
/// scene is ready; every other state holds.
pub fn next_game_state(current: GameState, scene_loaded: bool, waypoint_count: usize) -> (next:
    GameState)
    ensures
        current == GameState::Loading && scene_loaded && waypoint_count > 0 ==> next
            == GameState::InGame,
        current == GameState::InGame ==> next == GameState::InGame,
        current == GameState::Loading && !(scene_loaded && waypoint_count > 0) ==> next
            == GameState::Loading,
{
    match current {
        GameState::Loading => {
            if scene_ready(scene_loaded, waypoint_count) {
                GameState::InGame
            } else {
                GameState::Loading
            }
        },
        GameState::InGame => GameState::InGame,
    }
}

} // verus!
