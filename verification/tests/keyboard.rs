use wgpu_terminal::commands::InputMode;
use wgpu_terminal::terminal_keyboard::{
    encode_char, on_arrow_key, on_bracketed_paste, on_character_ctrl_key, on_function_key, ArrowKey, FunctionKey,
    KeyCode, ModifierKey, TerminalKeyboard, MODIFIER_ALT, MODIFIER_CTRL, MODIFIER_SHIFT,
};

#[test]
fn char_keys_send_utf8() {
    let mut keyboard = TerminalKeyboard::new();
    assert_eq!(keyboard.on_key_press(KeyCode::Char('a')), b"a".to_vec());
    assert_eq!(keyboard.on_key_press(KeyCode::Char('é')), "é".as_bytes().to_vec());
    assert_eq!(keyboard.on_key_press(KeyCode::Char('€')), "€".as_bytes().to_vec());
    assert_eq!(keyboard.on_key_press(KeyCode::Char('😀')), "😀".as_bytes().to_vec());
}

#[test]
fn encode_char_matches_std() {
    for c in ['\0', 'A', '\u{7f}', '\u{80}', 'ß', '\u{7ff}', '\u{800}', '\u{ffff}', '\u{10000}', '\u{10ffff}'] {
        let mut buf = [0u8; 4];
        assert_eq!(encode_char(c), c.encode_utf8(&mut buf).as_bytes().to_vec());
    }
}

#[test]
fn ctrl_with_letters_sends_control_codes() {
    let mut keyboard = TerminalKeyboard::new();
    assert!(keyboard.on_key_press(KeyCode::ModifierKey(ModifierKey { bits: MODIFIER_CTRL })).is_empty());
    assert_eq!(keyboard.on_key_press(KeyCode::Char('c')), vec![0x03]);
    assert_eq!(keyboard.on_key_press(KeyCode::Char('C')), vec![0x03]);
    assert_eq!(keyboard.on_key_press(KeyCode::Char('[')), vec![0x1b]);
    assert_eq!(keyboard.on_key_press(KeyCode::Char(' ')), vec![0x00]);
    assert_eq!(keyboard.on_key_press(KeyCode::Char('?')), vec![0x7f]);
    assert!(keyboard.on_key_press(KeyCode::Char('1')).is_empty());
    assert!(keyboard.on_key_press(KeyCode::Char('é')).is_empty());
    keyboard.on_key_release(KeyCode::ModifierKey(ModifierKey { bits: MODIFIER_CTRL }));
    assert_eq!(keyboard.on_key_press(KeyCode::Char('c')), b"c".to_vec());
}

#[test]
fn ctrl_code_table() {
    assert_eq!(on_character_ctrl_key(b'@'), Some(0));
    assert_eq!(on_character_ctrl_key(b'a'), Some(1));
    assert_eq!(on_character_ctrl_key(b'z'), Some(26));
    assert_eq!(on_character_ctrl_key(b'_'), Some(0x1f));
    assert_eq!(on_character_ctrl_key(b'{'), None);
    assert_eq!(on_character_ctrl_key(b'0'), None);
}

#[test]
fn arrow_keys_follow_mode_and_modifiers() {
    let none = ModifierKey { bits: 0 };
    assert_eq!(on_arrow_key(ArrowKey::Up, InputMode::Numeric, none), b"\x1b[A".to_vec());
    assert_eq!(on_arrow_key(ArrowKey::Down, InputMode::Numeric, none), b"\x1b[B".to_vec());
    assert_eq!(on_arrow_key(ArrowKey::Right, InputMode::Application, none), b"\x1bOC".to_vec());
    assert_eq!(on_arrow_key(ArrowKey::Left, InputMode::Application, none), b"\x1bOD".to_vec());
    let shift = ModifierKey { bits: MODIFIER_SHIFT };
    assert_eq!(on_arrow_key(ArrowKey::Up, InputMode::Application, shift), b"\x1b[1;2A".to_vec());
    let ctrl_alt = ModifierKey { bits: MODIFIER_CTRL | MODIFIER_ALT };
    assert_eq!(on_arrow_key(ArrowKey::Left, InputMode::Numeric, ctrl_alt), b"\x1b[1;7D".to_vec());
}

#[test]
fn cursor_key_mode_changes_arrows() {
    let mut keyboard = TerminalKeyboard::new();
    assert_eq!(keyboard.on_key_press(KeyCode::ArrowKey(ArrowKey::Up)), b"\x1b[A".to_vec());
    keyboard.set_cursor_key_input_mode(InputMode::Application);
    assert_eq!(keyboard.on_key_press(KeyCode::ArrowKey(ArrowKey::Up)), b"\x1bOA".to_vec());
    keyboard.set_keypad_input_mode(InputMode::Application);
    keyboard.set_cursor_key_input_mode(InputMode::Numeric);
    assert_eq!(keyboard.on_key_press(KeyCode::ArrowKey(ArrowKey::Up)), b"\x1b[A".to_vec());
}

#[test]
fn function_keys() {
    assert_eq!(on_function_key(FunctionKey::Escape), vec![0x1b]);
    assert_eq!(on_function_key(FunctionKey::Tab), vec![0x09]);
    assert_eq!(on_function_key(FunctionKey::Backspace), vec![0x7f]);
    assert_eq!(on_function_key(FunctionKey::Enter), vec![0x0d]);
    assert_eq!(on_function_key(FunctionKey::Delete), b"\x1b[3~".to_vec());
}

#[test]
fn paste_is_bracketed_by_default() {
    let mut keyboard = TerminalKeyboard::new();
    assert_eq!(keyboard.paste_text(b"ls"), b"\x1b[200~ls\x1b[201~".to_vec());
    assert_eq!(on_bracketed_paste(b""), b"\x1b[200~\x1b[201~".to_vec());
    keyboard.set_is_bracketed_paste_mode(false);
    assert_eq!(keyboard.paste_text(b"ls"), b"ls".to_vec());
}

#[test]
fn modifier_press_then_release_restores() {
    let mut keyboard = TerminalKeyboard::new();
    keyboard.on_key_press(KeyCode::ModifierKey(ModifierKey { bits: MODIFIER_SHIFT }));
    keyboard.on_key_press(KeyCode::ModifierKey(ModifierKey { bits: MODIFIER_CTRL }));
    keyboard.on_key_release(KeyCode::ModifierKey(ModifierKey { bits: MODIFIER_CTRL }));
    assert_eq!(keyboard.on_key_press(KeyCode::ArrowKey(ArrowKey::Up)), b"\x1b[1;2A".to_vec());
    keyboard.on_key_release(KeyCode::ModifierKey(ModifierKey { bits: MODIFIER_SHIFT }));
    assert_eq!(keyboard.on_key_press(KeyCode::ArrowKey(ArrowKey::Up)), b"\x1b[A".to_vec());
}
