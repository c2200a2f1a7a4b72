use webkeylayer_backend::KeyboardState;

#[test]
fn tracks_pressed_keys_and_clears_state() {
    let mut state = KeyboardState::new();

    state.update(65, true);
    state.update(66, false);
    state.update(67, true);

    assert!(state.is_pressed(65));
    assert!(!state.is_pressed(66));
    assert!(state.is_pressed(67));

    let mut pressed = state.pressed_keys();
    pressed.sort_unstable();
    assert_eq!(pressed, vec![65, 67]);

    state.clear();
    assert!(state.pressed_keys().is_empty());
}
