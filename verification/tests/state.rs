use gameplay_core::game_state::{next_game_state, scene_ready, GameState};

#[test]
fn scene_ready_needs_assets_and_markers() {
    assert!(!scene_ready(false, 0));
    assert!(!scene_ready(true, 0));
    assert!(!scene_ready(false, 3));
    assert!(scene_ready(true, 1));
}

#[test]
fn loading_transitions_once_ready() {
    assert_eq!(next_game_state(GameState::Loading, false, 2), GameState::Loading);
    assert_eq!(next_game_state(GameState::Loading, true, 0), GameState::Loading);
    assert_eq!(next_game_state(GameState::Loading, true, 2), GameState::InGame);
    assert_eq!(next_game_state(GameState::InGame, false, 0), GameState::InGame);
}
