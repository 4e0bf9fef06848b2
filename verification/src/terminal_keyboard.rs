//! Turns key presses and pasted text into the bytes a terminal program reads,
//! after the xterm conventions: control characters for Ctrl with a letter,
//! escape sequences for the arrow and editing keys, and bracketed pastes.
use vstd::prelude::*;
use vstd::utf8::{
    encode_scalar, has_width_1_encoding, has_width_2_encoding, has_width_3_encoding, last_continuation_byte,
    leading_byte_width_1, leading_byte_width_2, leading_byte_width_3, leading_byte_width_4,
    second_last_continuation_byte, third_last_continuation_byte,
};
use crate::commands::InputMode;

verus! {

/// The Shift key, as a bit of a set of held modifier keys.
pub const MODIFIER_SHIFT: u8 = 1;
/// The Alt key.
pub const MODIFIER_ALT: u8 = 2;
/// The Ctrl key.
pub const MODIFIER_CTRL: u8 = 4;

/// A set of held modifier keys, one bit each.
#[derive(Clone, Copy, Debug, PartialEq, Eq, Structural)]
pub struct ModifierKey {
    pub bits: u8,
}

/// An arrow key.
#[derive(Clone, Copy, Debug, PartialEq, Eq, Structural)]
pub enum ArrowKey {
    Up,
    Down,
    Right,
    Left,
}

/// A key that stands for an action rather than a character.
#[derive(Clone, Copy, Debug, PartialEq, Eq, Structural)]
pub enum FunctionKey {
    Escape,
    Tab,
    Backspace,
    Enter,
    Delete,
}

/// A key pressed or released.
#[derive(Clone, Copy, Debug, PartialEq, Eq, Structural)]
pub enum KeyCode {
    Char(char),
    ArrowKey(ArrowKey),
    FunctionKey(FunctionKey),
    /// One or more modifier keys.
    ModifierKey(ModifierKey),
}

/// The byte that opens an escape sequence.
pub open spec fn esc() -> u8 {
    0x1b
}

/// The UTF-8 encoding of `c`.
pub open spec fn char_bytes(c: char) -> Seq<u8> {
    encode_scalar(c as u32)
}

/// The control character that Ctrl with the character byte `b` gives: the
/// low five bits for `@`, the capital letters, `[ \ ] ^ _` and the small
/// letters, NUL for a space and DEL for `?`; none for any other byte.
pub open spec fn ctrl_code(b: u8) -> Option<u8> {
    if (0x40 <= b && b <= 0x5f) || (0x61 <= b && b <= 0x7a) {
        Some((b & 0x1f) as u8)
    } else if b == 0x20 {
        Some(0u8)
    } else if b == 0x3f {
        Some(0x7fu8)
    } else {
        None
    }
}

/// The final letter of the sequence of an arrow key.
pub open spec fn arrow_letter(key: ArrowKey) -> u8 {
    match key {
        ArrowKey::Up => 0x41,
        ArrowKey::Down => 0x42,
        ArrowKey::Right => 0x43,
        ArrowKey::Left => 0x44,
    }
}

/// The bytes of an arrow key: `ESC [ 1 ; m X` with held modifiers, where the
/// digit `m` is one more than their bits; otherwise `ESC [ X` in numeric
/// mode and `ESC O X` in application mode.
pub open spec fn arrow_bytes(key: ArrowKey, mode: InputMode, modifiers: ModifierKey) -> Seq<u8> {
    let bits = modifiers.bits & (MODIFIER_SHIFT | MODIFIER_ALT | MODIFIER_CTRL);
    if bits != 0 {
        seq![esc(), 0x5bu8, 0x31u8, 0x3bu8, (0x31 + bits) as u8, arrow_letter(key)]
    } else {
        match mode {
            InputMode::Numeric => seq![esc(), 0x5bu8, arrow_letter(key)],
            InputMode::Application => seq![esc(), 0x4fu8, arrow_letter(key)],
        }
    }
}

/// The bytes of a function key: ESC, TAB, DEL, CR, and `ESC [ 3 ~` for Delete.
pub open spec fn function_key_bytes(key: FunctionKey) -> Seq<u8> {
    match key {
        FunctionKey::Escape => seq![esc()],
        FunctionKey::Tab => seq![0x09u8],
        FunctionKey::Backspace => seq![0x7fu8],
        FunctionKey::Enter => seq![0x0du8],
        FunctionKey::Delete => seq![esc(), 0x5bu8, 0x33u8, 0x7eu8],
    }
}

/// The opening mark of a bracketed paste, `ESC [ 2 0 0 ~`.
pub open spec fn paste_start() -> Seq<u8> {
    seq![esc(), 0x5bu8, 0x32u8, 0x30u8, 0x30u8, 0x7eu8]
}

/// The closing mark of a bracketed paste, `ESC [ 2 0 1 ~`.
pub open spec fn paste_end() -> Seq<u8> {
    seq![esc(), 0x5bu8, 0x32u8, 0x30u8, 0x31u8, 0x7eu8]
}

/// Appends the bytes of `s` to `out`.
fn push_all(out: &mut Vec<u8>, s: &[u8])
    ensures
        final(out)@ == old(out)@ + s@,
{
    let mut i: usize = 0;
    while i < s.len()
        invariant
            i <= s@.len(),
            out@ == old(out)@ + s@.take(i as int),
        decreases s@.len() - i,
    {
        out.push(s[i]);
        proof { assert(out@ =~= old(out)@ + s@.take(i + 1)); }
        i = i + 1;
    }
    proof { assert(s@.take(s@.len() as int) =~= s@); }
}

/// The UTF-8 encoding of `c`.
pub fn encode_char(c: char) -> (r: Vec<u8>)
    ensures
        r@ == char_bytes(c),
{
    encode_code_point(c as u32)
}

/// The UTF-8 encoding of the code point `v` (see `encode_scalar`).
pub fn encode_code_point(v: u32) -> (r: Vec<u8>)
    ensures
        r@ == encode_scalar(v),
{
    let mut out: Vec<u8> = Vec::new();
    if v <= 0x7f {
        out.push((v & 0x7f) as u8);
        proof { assert(has_width_1_encoding(v)); assert(out@ =~= seq![leading_byte_width_1(v)]); }
    } else if v <= 0x7ff {
        out.push(0xC0 | ((v >> 6) & 0x1F) as u8);
        out.push(0x80 | (v & 0x3F) as u8);
        proof {
            assert(has_width_2_encoding(v));
            assert(out@ =~= seq![leading_byte_width_2(v), last_continuation_byte(v)]);
        }
    } else if v <= 0xffff && !(0xd800 <= v && v <= 0xdfff) {
        out.push(0xE0 | ((v >> 12) & 0x0F) as u8);
        out.push(0x80 | ((v >> 6) & 0x3F) as u8);
        out.push(0x80 | (v & 0x3F) as u8);
        proof {
            assert(has_width_3_encoding(v));
            assert(out@ =~= seq![leading_byte_width_3(v), second_last_continuation_byte(v), last_continuation_byte(v)]);
        }
    } else {
        out.push(0xF0 | ((v >> 18) & 0x7) as u8);
        out.push(0x80 | ((v >> 12) & 0x3F) as u8);
        out.push(0x80 | ((v >> 6) & 0x3F) as u8);
        out.push(0x80 | (v & 0x3F) as u8);
        proof {
            assert(out@ =~= seq![
                leading_byte_width_4(v),
                third_last_continuation_byte(v),
                second_last_continuation_byte(v),
                last_continuation_byte(v),
            ]);
        }
    }
    out
}

/// The control character for Ctrl with the byte `b` (see `ctrl_code`).
pub fn on_character_ctrl_key(b: u8) -> (r: Option<u8>)
    ensures
        r == ctrl_code(b),
{
    if (0x40 <= b && b <= 0x5f) || (0x61 <= b && b <= 0x7a) {
        Some(b & 0x1f)
    } else if b == 0x20 {
        Some(0)
    } else if b == 0x3f {
        Some(0x7f)
    } else {
        None
    }
}

/// The bytes of an arrow key (see `arrow_bytes`).
pub fn on_arrow_key(key: ArrowKey, mode: InputMode, modifiers: ModifierKey) -> (r: Vec<u8>)
    ensures
        r@ == arrow_bytes(key, mode, modifiers),
{
    let letter: u8 = match key {
        ArrowKey::Up => 0x41,
        ArrowKey::Down => 0x42,
        ArrowKey::Right => 0x43,
        ArrowKey::Left => 0x44,
    };
    let held = modifiers.bits;
    let bits = held & (MODIFIER_SHIFT | MODIFIER_ALT | MODIFIER_CTRL);
    proof {
        assert(MODIFIER_SHIFT | MODIFIER_ALT | MODIFIER_CTRL == 7u8) by (bit_vector);
        assert(bits <= 7) by (bit_vector) requires bits == held & 7u8;
    }
    let r = if bits != 0 {
        vec![0x1b, 0x5b, 0x31, 0x3b, 0x31 + bits, letter]
    } else {
        match mode {
            InputMode::Numeric => vec![0x1b, 0x5b, letter],
            InputMode::Application => vec![0x1b, 0x4f, letter],
        }
    };
    proof { assert(r@ =~= arrow_bytes(key, mode, modifiers)); }
    r
}

/// The bytes of a function key (see `function_key_bytes`).
pub fn on_function_key(key: FunctionKey) -> (r: Vec<u8>)
    ensures
        r@ == function_key_bytes(key),
{
    let r = match key {
        FunctionKey::Escape => vec![0x1b],
        FunctionKey::Tab => vec![0x09],
        FunctionKey::Backspace => vec![0x7f],
        FunctionKey::Enter => vec![0x0d],
        FunctionKey::Delete => vec![0x1b, 0x5b, 0x33, 0x7e],
    };
    proof { assert(r@ =~= function_key_bytes(key)); }
    r
}

/// `text` between the marks of a bracketed paste.
pub fn on_bracketed_paste(text: &[u8]) -> (r: Vec<u8>)
    ensures
        r@ == paste_start() + text@ + paste_end(),
{
    let mut out: Vec<u8> = vec![0x1b, 0x5b, 0x32, 0x30, 0x30, 0x7e];
    proof { assert(out@ =~= paste_start()); }
    push_all(&mut out, text);
    let end: Vec<u8> = vec![0x1b, 0x5b, 0x32, 0x30, 0x31, 0x7e];
    proof { assert(end@ =~= paste_end()); }
    push_all(&mut out, end.as_slice());
    out
}

/// The bytes that pressing `key` sends with `modifiers` held and the cursor
/// keys in `cursor_mode`. A character goes as its UTF-8 encoding, or, with
/// Ctrl held, as the control character of its single byte (nothing where it
/// has none or takes more bytes); an arrow key goes by the cursor key mode
/// and the held modifiers; a modifier key sends nothing.
pub open spec fn key_bytes_for(modifiers: ModifierKey, cursor_mode: InputMode, key: KeyCode) -> Seq<u8> {
    match key {
        KeyCode::Char(c) => {
            if modifiers.bits & MODIFIER_CTRL == MODIFIER_CTRL {
                let b = char_bytes(c);
                if b.len() == 1 {
                    match ctrl_code(b[0]) {
                        Some(x) => seq![x],
                        None => Seq::empty(),
                    }
                } else {
                    Seq::empty()
                }
            } else {
                char_bytes(c)
            }
        },
        KeyCode::ArrowKey(a) => arrow_bytes(a, cursor_mode, modifiers),
        KeyCode::FunctionKey(f) => function_key_bytes(f),
        KeyCode::ModifierKey(_) => Seq::empty(),
    }
}

/// A keyboard as plain values.
#[derive(Clone, Copy, Debug, PartialEq, Eq, Structural)]
pub struct KeyboardModel {
    pub bracketed_paste: bool,
    pub modifiers: ModifierKey,
    pub keypad_mode: InputMode,
    pub cursor_key_mode: InputMode,
}

/// The keyboard of a terminal: which modifier keys are held, and the modes
/// that the program chose for keys and pastes.
pub struct TerminalKeyboard {
    is_bracketed_paste_mode: bool,
    modifier_key: ModifierKey,
    keypad_input_mode: InputMode,
    cursor_key_input_mode: InputMode,
}

impl TerminalKeyboard {
    /// Whether pastes are marked.
    pub closed spec fn bracketed_paste(&self) -> bool {
        self.is_bracketed_paste_mode
    }

    /// The modifier keys held.
    pub closed spec fn modifiers(&self) -> ModifierKey {
        self.modifier_key
    }

    /// The mode of the keypad keys.
    pub closed spec fn keypad_mode(&self) -> InputMode {
        self.keypad_input_mode
    }

    /// The mode of the cursor keys.
    pub closed spec fn cursor_key_mode(&self) -> InputMode {
        self.cursor_key_input_mode
    }

    /// The bytes that pressing `key` sends (see `key_bytes_for`).
    pub open spec fn key_bytes(&self, key: KeyCode) -> Seq<u8> {
        key_bytes_for(self.modifiers(), self.cursor_key_mode(), key)
    }

    /// The keyboard as plain values.
    pub open spec fn model(&self) -> KeyboardModel {
        KeyboardModel {
            bracketed_paste: self.bracketed_paste(),
            modifiers: self.modifiers(),
            keypad_mode: self.keypad_mode(),
            cursor_key_mode: self.cursor_key_mode(),
        }
    }

    /// A keyboard with no modifier key held, plain key codes and marked pastes.
    pub fn new() -> (r: Self)
        ensures
            r.bracketed_paste(),
            r.modifiers() == (ModifierKey { bits: 0 }),
            r.keypad_mode() == InputMode::Numeric,
            r.cursor_key_mode() == InputMode::Numeric,
    {
        TerminalKeyboard {
            is_bracketed_paste_mode: true,
            modifier_key: ModifierKey { bits: 0 },
            keypad_input_mode: InputMode::Numeric,
            cursor_key_input_mode: InputMode::Numeric,
        }
    }

    /// Sets the mode of the keypad keys.
    pub fn set_keypad_input_mode(&mut self, input_mode: InputMode)
        ensures
            final(self).keypad_mode() == input_mode,
            final(self).cursor_key_mode() == old(self).cursor_key_mode(),
            final(self).modifiers() == old(self).modifiers(),
            final(self).bracketed_paste() == old(self).bracketed_paste(),
    {
        self.keypad_input_mode = input_mode;
    }

    /// Sets the mode of the cursor keys.
    pub fn set_cursor_key_input_mode(&mut self, input_mode: InputMode)
        ensures
            final(self).cursor_key_mode() == input_mode,
            final(self).keypad_mode() == old(self).keypad_mode(),
            final(self).modifiers() == old(self).modifiers(),
            final(self).bracketed_paste() == old(self).bracketed_paste(),
    {
        self.cursor_key_input_mode = input_mode;
    }

    /// Sets whether pastes are marked.
    pub fn set_is_bracketed_paste_mode(&mut self, is_bracketed: bool)
        ensures
            final(self).bracketed_paste() == is_bracketed,
            final(self).keypad_mode() == old(self).keypad_mode(),
            final(self).cursor_key_mode() == old(self).cursor_key_mode(),
            final(self).modifiers() == old(self).modifiers(),
    {
        self.is_bracketed_paste_mode = is_bracketed;
    }

    /// The bytes that pasting `text` sends: the text, between the marks of a
    /// bracketed paste where pastes are marked.
    pub fn paste_text(&self, text: &[u8]) -> (r: Vec<u8>)
        ensures
            r@ == (if self.bracketed_paste() { paste_start() + text@ + paste_end() } else { text@ }),
    {
        if self.is_bracketed_paste_mode {
            on_bracketed_paste(text)
        } else {
            let mut out: Vec<u8> = Vec::new();
            push_all(&mut out, text);
            proof { assert(out@ =~= text@); }
            out
        }
    }

    /// Presses `key`: gives the bytes it sends (see `key_bytes`); a modifier
    /// key is held from now on.
    pub fn on_key_press(&mut self, key: KeyCode) -> (r: Vec<u8>)
        ensures
            r@ == old(self).key_bytes(key),
            final(self).modifiers() == (match key {
                KeyCode::ModifierKey(m) => ModifierKey { bits: old(self).modifiers().bits | m.bits },
                _ => old(self).modifiers(),
            }),
            final(self).keypad_mode() == old(self).keypad_mode(),
            final(self).cursor_key_mode() == old(self).cursor_key_mode(),
            final(self).bracketed_paste() == old(self).bracketed_paste(),
    {
        match key {
            KeyCode::Char(c) => {
                let data = encode_char(c);
                if self.modifier_key.bits & MODIFIER_CTRL == MODIFIER_CTRL {
                    if data.len() == 1 {
                        match on_character_ctrl_key(data[0]) {
                            Some(x) => {
                                let r = vec![x];
                                proof { assert(r@ =~= seq![x]); }
                                r
                            },
                            None => Vec::new(),
                        }
                    } else {
                        Vec::new()
                    }
                } else {
                    data
                }
            },
            KeyCode::ArrowKey(a) => on_arrow_key(a, self.cursor_key_input_mode, self.modifier_key),
            KeyCode::FunctionKey(f) => on_function_key(f),
            KeyCode::ModifierKey(m) => {
                self.modifier_key = ModifierKey { bits: self.modifier_key.bits | m.bits };
                Vec::new()
            },
        }
    }

    /// Releases `key`: a modifier key is no longer held.
    pub fn on_key_release(&mut self, key: KeyCode)
        ensures
            final(self).modifiers() == (match key {
                KeyCode::ModifierKey(m) => ModifierKey { bits: old(self).modifiers().bits & !m.bits },
                _ => old(self).modifiers(),
            }),
            final(self).keypad_mode() == old(self).keypad_mode(),
            final(self).cursor_key_mode() == old(self).cursor_key_mode(),
            final(self).bracketed_paste() == old(self).bracketed_paste(),
    {
        match key {
            KeyCode::ModifierKey(m) => {
                self.modifier_key = ModifierKey { bits: self.modifier_key.bits & !m.bits };
            },
            _ => {},
        }
    }
}

/// Pressing a modifier key and releasing it again leaves the keyboard as it
/// was, where that key was not held before.
pub proof fn lemma_modifier_press_then_release(k: TerminalKeyboard, m: ModifierKey)
    requires
        k.modifiers().bits & m.bits == 0,
    ensures
        (k.modifiers().bits | m.bits) & !m.bits == k.modifiers().bits,
{
    let a = k.modifiers().bits;
    let b = m.bits;
    assert((a | b) & !b == a) by (bit_vector) requires a & b == 0u8;
}

} // verus!
