use wgpu_terminal::terminal_keyboard::{ArrowKey, FunctionKey, KeyCode, ModifierKey};
use wgpu_terminal::window_keys::{on_keyboard_input, WindowKey, WindowKeyAction};

#[test]
fn modifiers_go_both_ways() {
    let ctrl = KeyCode::ModifierKey(ModifierKey { bits: 4 });
    assert_eq!(on_keyboard_input(WindowKey::ControlLeft, true, false), WindowKeyAction::Press(ctrl));
    assert_eq!(on_keyboard_input(WindowKey::ControlRight, false, false), WindowKeyAction::Release(ctrl));
    let shift = KeyCode::ModifierKey(ModifierKey { bits: 1 });
    assert_eq!(on_keyboard_input(WindowKey::ShiftRight, true, true), WindowKeyAction::Press(shift));
    let alt = KeyCode::ModifierKey(ModifierKey { bits: 2 });
    assert_eq!(on_keyboard_input(WindowKey::AltLeft, false, false), WindowKeyAction::Release(alt));
}

#[test]
fn other_keys_only_count_going_down() {
    assert_eq!(on_keyboard_input(WindowKey::ArrowUp, false, false), WindowKeyAction::Ignore);
    assert_eq!(on_keyboard_input(WindowKey::Other, false, true), WindowKeyAction::Ignore);
    assert_eq!(on_keyboard_input(WindowKey::ArrowLeft, true, false),
        WindowKeyAction::Press(KeyCode::ArrowKey(ArrowKey::Left)));
    assert_eq!(on_keyboard_input(WindowKey::Backspace, true, true),
        WindowKeyAction::Press(KeyCode::FunctionKey(FunctionKey::Backspace)));
}

#[test]
fn navigation_keys_move_the_view() {
    assert_eq!(on_keyboard_input(WindowKey::End, true, false), WindowKeyAction::ScrollToBottom);
    assert_eq!(on_keyboard_input(WindowKey::Home, true, false), WindowKeyAction::ScrollToTop);
    assert_eq!(on_keyboard_input(WindowKey::PageDown, true, false), WindowKeyAction::ScrollDownOneScreen);
    assert_eq!(on_keyboard_input(WindowKey::PageUp, true, false), WindowKeyAction::ScrollUpOneScreen);
}

#[test]
fn space_and_text_are_typed() {
    assert_eq!(on_keyboard_input(WindowKey::Space, true, true), WindowKeyAction::TypeSpace);
    assert_eq!(on_keyboard_input(WindowKey::Other, true, true), WindowKeyAction::TypeText);
    assert_eq!(on_keyboard_input(WindowKey::Other, true, false), WindowKeyAction::Ignore);
}
