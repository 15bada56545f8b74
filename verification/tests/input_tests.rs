use engene::input::input::KeyboardState;
use engene::input::input_system::{GameAction, InputActionSystem, InputActions};

#[test]
fn input_actions_flags() {
    let mut actions = InputActions::new();
    assert!(!actions.is_active(GameAction::Fire));
    actions.active.insert(GameAction::Fire, true);
    actions.active.insert(GameAction::Jump, false);
    actions.just_activated.insert(GameAction::Fire, true);
    assert!(actions.is_active(GameAction::Fire));
    assert!(!actions.is_active(GameAction::Jump));
    assert!(actions.was_just_activated(GameAction::Fire));
    actions.clear_frame();
    assert!(!actions.was_just_activated(GameAction::Fire));
    assert!(actions.is_active(GameAction::Fire));
    actions.active.insert(GameAction::Fire, false);
    assert!(!actions.is_active(GameAction::Fire));
}

#[test]
fn default_bindings() {
    let system = InputActionSystem::new();
    assert_eq!(system.binding_count(), 16);
}

#[test]
fn keys_go_down_once_per_press() {
    let mut keys = KeyboardState::new();
    assert!(!keys.is_key_down(17));
    keys.key_pressed(17);
    assert!(keys.is_key_down(17));
    assert!(keys.was_key_pressed(17));
    keys.end_frame();
    assert!(keys.is_key_down(17));
    assert!(!keys.was_key_pressed(17));
    // Held key repeating does not go down again.
    keys.key_pressed(17);
    assert!(!keys.was_key_pressed(17));
    keys.key_released(17);
    assert!(!keys.is_key_down(17));
    keys.key_pressed(17);
    assert!(keys.was_key_pressed(17));
}

#[test]
fn key_pressed_and_released_in_one_frame_still_went_down() {
    let mut keys = KeyboardState::new();
    keys.key_pressed(3);
    keys.key_released(3);
    assert!(!keys.is_key_down(3));
    assert!(keys.was_key_pressed(3));
    keys.end_frame();
    assert!(!keys.was_key_pressed(3));
}
