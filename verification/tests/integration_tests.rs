use base_car::state::GameState;

#[test]
fn test_basic() {}

#[test]
fn default_state_is_waiting_and_empty() {
    let state = GameState::default();
    assert_eq!(state.total_cars(), 0);
    assert!(!state.can_play());
    assert!(state.bananas.is_empty());
    assert_eq!(state.sold.accelerate, 0);
    assert_eq!(state.sold.shell, 0);
    assert_eq!(state.sold.super_shell, 0);
    assert_eq!(state.sold.banana, 0);
    assert_eq!(state.sold.shield, 0);
}
