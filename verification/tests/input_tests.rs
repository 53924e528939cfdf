use space_shooter::input::{control_for_key, prevents_default, Control, InputState};

#[test]
fn keys_map_to_controls() {
    assert_eq!(control_for_key("ArrowLeft"), Some(Control::Left));
    assert_eq!(control_for_key("a"), Some(Control::Left));
    assert_eq!(control_for_key("A"), Some(Control::Left));
    assert_eq!(control_for_key("ArrowRight"), Some(Control::Right));
    assert_eq!(control_for_key("d"), Some(Control::Right));
    assert_eq!(control_for_key("D"), Some(Control::Right));
    assert_eq!(control_for_key("ArrowUp"), Some(Control::Up));
    assert_eq!(control_for_key("w"), Some(Control::Up));
    assert_eq!(control_for_key("W"), Some(Control::Up));
    assert_eq!(control_for_key("ArrowDown"), Some(Control::Down));
    assert_eq!(control_for_key("s"), Some(Control::Down));
    assert_eq!(control_for_key("S"), Some(Control::Down));
    assert_eq!(control_for_key(" "), Some(Control::Space));
    assert_eq!(control_for_key("Escape"), Some(Control::Escape));
}

#[test]
fn unknown_keys_map_to_nothing() {
    assert_eq!(control_for_key("q"), None);
    assert_eq!(control_for_key(""), None);
    assert_eq!(control_for_key("Arrow"), None);
    assert_eq!(control_for_key("ArrowLeftX"), None);
    assert_eq!(control_for_key("escape"), None);
    assert_eq!(control_for_key("Space"), None);
}

#[test]
fn default_state_has_nothing_pressed() {
    let state = InputState::default();
    assert!(!state.left_pressed);
    assert!(!state.right_pressed);
    assert!(!state.up_pressed);
    assert!(!state.down_pressed);
    assert!(!state.space_pressed);
    assert!(!state.escape_pressed);
    assert_eq!(state, InputState::new());
}

#[test]
fn key_down_sets_and_key_up_clears() {
    let mut state = InputState::new();
    state.handle_key("ArrowLeft", true);
    assert!(state.left_pressed);
    assert!(!state.right_pressed);
    state.handle_key(" ", true);
    assert!(state.space_pressed);
    state.handle_key("a", false);
    assert!(!state.left_pressed);
    assert!(state.space_pressed);
    state.handle_key("Escape", true);
    assert!(state.escape_pressed);
    state.handle_key("x", true);
    let mut expected = InputState::new();
    expected.space_pressed = true;
    expected.escape_pressed = true;
    assert_eq!(state, expected);
}

#[test]
fn release_undoes_press() {
    let start = InputState::new();
    for key in ["ArrowUp", "w", "D", "s", " ", "Escape", "z"] {
        let mut state = start;
        state.handle_key(key, true);
        state.handle_key(key, false);
        assert_eq!(state, start);
    }
}

#[test]
fn is_pressed_and_set_agree() {
    let mut state = InputState::new();
    state.set(Control::Down, true);
    assert!(state.is_pressed(Control::Down));
    assert!(state.down_pressed);
    assert!(!state.is_pressed(Control::Up));
    state.set(Control::Down, false);
    assert!(!state.is_pressed(Control::Down));
}

#[test]
fn arrows_and_space_prevent_default() {
    assert!(prevents_default("ArrowLeft"));
    assert!(prevents_default("ArrowDown"));
    assert!(prevents_default("Arrow"));
    assert!(prevents_default(" "));
    assert!(!prevents_default("a"));
    assert!(!prevents_default("Escape"));
    assert!(!prevents_default("Arr"));
    assert!(!prevents_default(""));
}
