//! What a window does with a key of its keyboard: modifier keys are passed on
//! as they go down and up; arrow and function keys, the space bar and keys
//! that type characters are passed on as they go down; the navigation keys
//! move the view of the screen and its history instead.
use vstd::prelude::*;
use crate::terminal_keyboard::{ArrowKey, FunctionKey, KeyCode, ModifierKey, MODIFIER_ALT, MODIFIER_CTRL, MODIFIER_SHIFT};

verus! {

/// A key of the window's keyboard, by its place on the keyboard.
#[derive(Clone, Copy, Debug, PartialEq, Eq, Structural)]
pub enum WindowKey {
    AltLeft,
    AltRight,
    ControlLeft,
    ControlRight,
    ShiftLeft,
    ShiftRight,
    ArrowUp,
    ArrowDown,
    ArrowLeft,
    ArrowRight,
    Escape,
    Tab,
    Backspace,
    Enter,
    Delete,
    End,
    Home,
    PageDown,
    PageUp,
    Space,
    /// Any other key.
    Other,
}

/// What the window does with a key.
#[derive(Clone, Copy, Debug, PartialEq, Eq, Structural)]
pub enum WindowKeyAction {
    /// Nothing.
    Ignore,
    /// Tells the terminal's keyboard that this key went down.
    Press(KeyCode),
    /// Tells the terminal's keyboard that this key went up.
    Release(KeyCode),
    /// Shows the newest rows.
    ScrollToBottom,
    /// Shows the oldest rows of the history.
    ScrollToTop,
    /// Moves the view one screen towards the newest rows.
    ScrollDownOneScreen,
    /// Moves the view one screen towards the oldest rows.
    ScrollUpOneScreen,
    /// Presses the space character, then shows the newest rows.
    TypeSpace,
    /// Types the characters the key gives, one press each, then shows the
    /// newest rows.
    TypeText,
}

/// The modifier key that `key` is, if it is one.
pub open spec fn modifier_of(key: WindowKey) -> Option<ModifierKey> {
    match key {
        WindowKey::AltLeft | WindowKey::AltRight => Some(ModifierKey { bits: MODIFIER_ALT }),
        WindowKey::ControlLeft | WindowKey::ControlRight => Some(ModifierKey { bits: MODIFIER_CTRL }),
        WindowKey::ShiftLeft | WindowKey::ShiftRight => Some(ModifierKey { bits: MODIFIER_SHIFT }),
        _ => None,
    }
}

/// The key of the terminal that a press of `key` stands for: an arrow or a
/// function key, or the space character.
pub open spec fn pressed_key_of(key: WindowKey) -> Option<KeyCode> {
    match key {
        WindowKey::ArrowUp => Some(KeyCode::ArrowKey(ArrowKey::Up)),
        WindowKey::ArrowDown => Some(KeyCode::ArrowKey(ArrowKey::Down)),
        WindowKey::ArrowLeft => Some(KeyCode::ArrowKey(ArrowKey::Left)),
        WindowKey::ArrowRight => Some(KeyCode::ArrowKey(ArrowKey::Right)),
        WindowKey::Escape => Some(KeyCode::FunctionKey(FunctionKey::Escape)),
        WindowKey::Tab => Some(KeyCode::FunctionKey(FunctionKey::Tab)),
        WindowKey::Backspace => Some(KeyCode::FunctionKey(FunctionKey::Backspace)),
        WindowKey::Enter => Some(KeyCode::FunctionKey(FunctionKey::Enter)),
        WindowKey::Delete => Some(KeyCode::FunctionKey(FunctionKey::Delete)),
        _ => None,
    }
}

/// What the window does with `key` going down (`pressed`) or up, where
/// `types_text` tells whether the key gives characters to type.
pub open spec fn key_action(key: WindowKey, pressed: bool, types_text: bool) -> WindowKeyAction {
    if modifier_of(key) is Some {
        if pressed {
            WindowKeyAction::Press(KeyCode::ModifierKey(modifier_of(key)->0))
        } else {
            WindowKeyAction::Release(KeyCode::ModifierKey(modifier_of(key)->0))
        }
    } else if !pressed {
        WindowKeyAction::Ignore
    } else if pressed_key_of(key) is Some {
        WindowKeyAction::Press(pressed_key_of(key)->0)
    } else {
        match key {
            WindowKey::End => WindowKeyAction::ScrollToBottom,
            WindowKey::Home => WindowKeyAction::ScrollToTop,
            WindowKey::PageDown => WindowKeyAction::ScrollDownOneScreen,
            WindowKey::PageUp => WindowKeyAction::ScrollUpOneScreen,
            WindowKey::Space => WindowKeyAction::TypeSpace,
            _ => if types_text { WindowKeyAction::TypeText } else { WindowKeyAction::Ignore },
        }
    }
}

/// What the window does with `key` going down (`pressed`) or up; see `key_action`.
pub fn on_keyboard_input(key: WindowKey, pressed: bool, types_text: bool) -> (r: WindowKeyAction)
    ensures
        r == key_action(key, pressed, types_text),
{
    match key {
        WindowKey::AltLeft | WindowKey::AltRight => {
            let code = KeyCode::ModifierKey(ModifierKey { bits: MODIFIER_ALT });
            return if pressed { WindowKeyAction::Press(code) } else { WindowKeyAction::Release(code) };
        },
        WindowKey::ControlLeft | WindowKey::ControlRight => {
            let code = KeyCode::ModifierKey(ModifierKey { bits: MODIFIER_CTRL });
            return if pressed { WindowKeyAction::Press(code) } else { WindowKeyAction::Release(code) };
        },
        WindowKey::ShiftLeft | WindowKey::ShiftRight => {
            let code = KeyCode::ModifierKey(ModifierKey { bits: MODIFIER_SHIFT });
            return if pressed { WindowKeyAction::Press(code) } else { WindowKeyAction::Release(code) };
        },
        _ => {},
    }
    if !pressed {
        return WindowKeyAction::Ignore;
    }
    match key {
        WindowKey::ArrowUp => WindowKeyAction::Press(KeyCode::ArrowKey(ArrowKey::Up)),
        WindowKey::ArrowDown => WindowKeyAction::Press(KeyCode::ArrowKey(ArrowKey::Down)),
        WindowKey::ArrowLeft => WindowKeyAction::Press(KeyCode::ArrowKey(ArrowKey::Left)),
        WindowKey::ArrowRight => WindowKeyAction::Press(KeyCode::ArrowKey(ArrowKey::Right)),
        WindowKey::Escape => WindowKeyAction::Press(KeyCode::FunctionKey(FunctionKey::Escape)),
        WindowKey::Tab => WindowKeyAction::Press(KeyCode::FunctionKey(FunctionKey::Tab)),
        WindowKey::Backspace => WindowKeyAction::Press(KeyCode::FunctionKey(FunctionKey::Backspace)),
        WindowKey::Enter => WindowKeyAction::Press(KeyCode::FunctionKey(FunctionKey::Enter)),
        WindowKey::Delete => WindowKeyAction::Press(KeyCode::FunctionKey(FunctionKey::Delete)),
        WindowKey::End => WindowKeyAction::ScrollToBottom,
        WindowKey::Home => WindowKeyAction::ScrollToTop,
        WindowKey::PageDown => WindowKeyAction::ScrollDownOneScreen,
        WindowKey::PageUp => WindowKeyAction::ScrollUpOneScreen,
        WindowKey::Space => WindowKeyAction::TypeSpace,
        _ => if types_text { WindowKeyAction::TypeText } else { WindowKeyAction::Ignore },
    }
}

/// A modifier key is passed on both ways, and every other key only as it
/// goes down.
pub proof fn lemma_only_modifiers_are_released(key: WindowKey, types_text: bool)
    ensures
        key_action(key, false, types_text) is Release <==> modifier_of(key) is Some,
        modifier_of(key) is None ==> key_action(key, false, types_text) == WindowKeyAction::Ignore,
{
}

/// A pressed arrow key is passed on as the terminal's arrow key of the same
/// direction, and a pressed function key as the same function key, whether
/// or not the key would also type text; no two keys are passed on as the
/// same arrow or function key. The left and right modifier keys of a kind
/// are passed on alike, as Shift (1), Alt (2) or Ctrl (4), both ways; End
/// and Home go to the newest and oldest rows, Page Down and Page Up move by a
/// screen, and the space bar types a space.
pub proof fn lemma_keys_keep_their_meaning(types_text: bool)
    ensures
        key_action(WindowKey::ArrowUp, true, types_text) == WindowKeyAction::Press(KeyCode::ArrowKey(ArrowKey::Up)),
        key_action(WindowKey::ArrowDown, true, types_text) == WindowKeyAction::Press(KeyCode::ArrowKey(ArrowKey::Down)),
        key_action(WindowKey::ArrowLeft, true, types_text) == WindowKeyAction::Press(KeyCode::ArrowKey(ArrowKey::Left)),
        key_action(WindowKey::ArrowRight, true, types_text) == WindowKeyAction::Press(KeyCode::ArrowKey(ArrowKey::Right)),
        key_action(WindowKey::Escape, true, types_text) == WindowKeyAction::Press(KeyCode::FunctionKey(FunctionKey::Escape)),
        key_action(WindowKey::Tab, true, types_text) == WindowKeyAction::Press(KeyCode::FunctionKey(FunctionKey::Tab)),
        key_action(WindowKey::Backspace, true, types_text) == WindowKeyAction::Press(KeyCode::FunctionKey(FunctionKey::Backspace)),
        key_action(WindowKey::Enter, true, types_text) == WindowKeyAction::Press(KeyCode::FunctionKey(FunctionKey::Enter)),
        key_action(WindowKey::Delete, true, types_text) == WindowKeyAction::Press(KeyCode::FunctionKey(FunctionKey::Delete)),
        forall|a: WindowKey, b: WindowKey| a != b && is_arrow_or_function_press(#[trigger] key_action(a, true, types_text))
            ==> key_action(a, true, types_text) != #[trigger] key_action(b, true, types_text),
        forall|pressed: bool| {
            &&& #[trigger] key_action(WindowKey::ShiftLeft, pressed, types_text) == key_action(WindowKey::ShiftRight, pressed, types_text)
            &&& key_action(WindowKey::AltLeft, pressed, types_text) == key_action(WindowKey::AltRight, pressed, types_text)
            &&& key_action(WindowKey::ControlLeft, pressed, types_text) == key_action(WindowKey::ControlRight, pressed, types_text)
        },
        key_action(WindowKey::ShiftLeft, true, types_text) == WindowKeyAction::Press(KeyCode::ModifierKey(ModifierKey { bits: 1 })),
        key_action(WindowKey::AltLeft, true, types_text) == WindowKeyAction::Press(KeyCode::ModifierKey(ModifierKey { bits: 2 })),
        key_action(WindowKey::ControlLeft, true, types_text) == WindowKeyAction::Press(KeyCode::ModifierKey(ModifierKey { bits: 4 })),
        key_action(WindowKey::ShiftLeft, false, types_text) == WindowKeyAction::Release(KeyCode::ModifierKey(ModifierKey { bits: 1 })),
        key_action(WindowKey::AltLeft, false, types_text) == WindowKeyAction::Release(KeyCode::ModifierKey(ModifierKey { bits: 2 })),
        key_action(WindowKey::ControlLeft, false, types_text) == WindowKeyAction::Release(KeyCode::ModifierKey(ModifierKey { bits: 4 })),
        key_action(WindowKey::End, true, types_text) == WindowKeyAction::ScrollToBottom,
        key_action(WindowKey::Home, true, types_text) == WindowKeyAction::ScrollToTop,
        key_action(WindowKey::PageDown, true, types_text) == WindowKeyAction::ScrollDownOneScreen,
        key_action(WindowKey::PageUp, true, types_text) == WindowKeyAction::ScrollUpOneScreen,
        key_action(WindowKey::Space, true, types_text) == WindowKeyAction::TypeSpace,
{
    assert forall|a: WindowKey, b: WindowKey| a != b && is_arrow_or_function_press(#[trigger] key_action(a, true, types_text))
        implies key_action(a, true, types_text) != #[trigger] key_action(b, true, types_text) by {
        assert(pressed_window_key(key_action(a, true, types_text)) == Some(a));
        if key_action(a, true, types_text) == key_action(b, true, types_text) {
            assert(pressed_window_key(key_action(b, true, types_text)) == Some(b));
        }
    }
}

/// Whether `action` passes on an arrow or a function key.
pub open spec fn is_arrow_or_function_press(action: WindowKeyAction) -> bool {
    match action {
        WindowKeyAction::Press(KeyCode::ArrowKey(_)) | WindowKeyAction::Press(KeyCode::FunctionKey(_)) => true,
        _ => false,
    }
}

/// The window key whose press passes on `action`, for the arrow and function keys.
pub open spec fn pressed_window_key(action: WindowKeyAction) -> Option<WindowKey> {
    match action {
        WindowKeyAction::Press(KeyCode::ArrowKey(ArrowKey::Up)) => Some(WindowKey::ArrowUp),
        WindowKeyAction::Press(KeyCode::ArrowKey(ArrowKey::Down)) => Some(WindowKey::ArrowDown),
        WindowKeyAction::Press(KeyCode::ArrowKey(ArrowKey::Left)) => Some(WindowKey::ArrowLeft),
        WindowKeyAction::Press(KeyCode::ArrowKey(ArrowKey::Right)) => Some(WindowKey::ArrowRight),
        WindowKeyAction::Press(KeyCode::FunctionKey(FunctionKey::Escape)) => Some(WindowKey::Escape),
        WindowKeyAction::Press(KeyCode::FunctionKey(FunctionKey::Tab)) => Some(WindowKey::Tab),
        WindowKeyAction::Press(KeyCode::FunctionKey(FunctionKey::Backspace)) => Some(WindowKey::Backspace),
        WindowKeyAction::Press(KeyCode::FunctionKey(FunctionKey::Enter)) => Some(WindowKey::Enter),
        WindowKeyAction::Press(KeyCode::FunctionKey(FunctionKey::Delete)) => Some(WindowKey::Delete),
        _ => None,
    }
}

} // verus!
