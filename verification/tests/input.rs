use water_render::input::{decide, is_quit_key, InputAction, InputEvent, KeyCode, KeyInput, KeyKind, CONTROL, SHIFT};

fn press(code: KeyCode, modifiers: u8) -> KeyInput {
    KeyInput { code, modifiers, kind: KeyKind::Press, state: 0 }
}

#[test]
fn ctrl_c_quits() {
    let k = press(KeyCode::Char('c'), CONTROL);
    assert!(is_quit_key(&k));
    assert_eq!(decide(&InputEvent::Key(k)), InputAction::Quit);
}

#[test]
fn bare_esc_quits() {
    assert_eq!(decide(&InputEvent::Key(press(KeyCode::Esc, 0))), InputAction::Quit);
}

#[test]
fn esc_with_modifier_or_release_does_not_quit() {
    assert_eq!(decide(&InputEvent::Key(press(KeyCode::Esc, CONTROL))), InputAction::Continue);
    let released = KeyInput { code: KeyCode::Esc, modifiers: 0, kind: KeyKind::Release, state: 0 };
    assert_eq!(decide(&InputEvent::Key(released)), InputAction::Continue);
}

#[test]
fn shifted_or_upper_case_c_does_not_quit() {
    assert!(!is_quit_key(&press(KeyCode::Char('C'), CONTROL)));
    assert!(!is_quit_key(&press(KeyCode::Char('c'), CONTROL | SHIFT)));
    assert!(!is_quit_key(&press(KeyCode::Char('c'), 0)));
    let keypad = KeyInput { code: KeyCode::Char('c'), modifiers: CONTROL, kind: KeyKind::Press, state: 1 };
    assert!(!is_quit_key(&keypad));
}

#[test]
fn other_keys_continue() {
    assert_eq!(decide(&InputEvent::Key(press(KeyCode::Char('q'), 0))), InputAction::Continue);
    assert_eq!(decide(&InputEvent::Key(press(KeyCode::Other, CONTROL))), InputAction::Continue);
    assert_eq!(decide(&InputEvent::Other), InputAction::Continue);
}

#[test]
fn resize_is_followed() {
    assert_eq!(decide(&InputEvent::Resize(80, 24)), InputAction::Resize(80, 24));
}
