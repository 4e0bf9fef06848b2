//! What the user does to a terminal: keys, the mouse, focus and resizes. Each
//! event changes the terminal and gives the bytes to send to the program, in
//! the xterm encodings the program asked for, and the size to tell the
//! pseudo-terminal where the grid changed.
use vstd::prelude::*;
use crate::commands::{InputMode, MouseCoordinateFormat, MouseTrackingMode};
use crate::primitives::Vector2;
use crate::terminal_core::EncoderSettings;
use crate::terminal_display::{DisplayModel, TerminalDisplay, valid_size};
use crate::viewport::ViewportModel;
use vstd::utf8::encode_scalar;
use crate::terminal_keyboard::{KeyCode, KeyboardModel, ModifierKey, TerminalKeyboard, encode_code_point, key_bytes_for};

verus! {

/// A mouse button; the wheel turning counts as a press of its own button.
#[derive(Clone, Copy, Debug, PartialEq, Eq, Structural)]
pub enum MouseButton {
    Left,
    Middle,
    Right,
    WheelUp,
    WheelDown,
}

/// A request to the pseudo-terminal, apart from the bytes it carries.
#[derive(Clone, Copy, Debug, PartialEq, Eq, Structural)]
pub enum TerminalIOControl {
    /// The grid now has this many columns and rows.
    SetSize(Vector2),
}

/// What the user did.
#[derive(Clone, Copy, Debug, PartialEq, Eq, Structural)]
pub enum TerminalUserEvent {
    MousePress(MouseButton),
    MouseRelease(MouseButton),
    MouseMove(Vector2),
    KeyPress(KeyCode),
    KeyRelease(KeyCode),
    WindowResize(Vector2),
    WindowFocus(bool),
    GridResize(Vector2),
    SetIsNewlineCarriageReturn(bool),
}

/// What to do after an event: the bytes to send to the program, and the
/// request to make of the pseudo-terminal, if any.
pub struct UserAction {
    pub write: Vec<u8>,
    pub ioctl: Option<TerminalIOControl>,
}

/// The digits of `n` in decimal, most significant first.
pub open spec fn decimal(n: nat) -> Seq<u8>
    decreases n,
{
    if n < 10 {
        seq![(0x30 + n) as u8]
    } else {
        decimal(n / 10).push((0x30 + n % 10) as u8)
    }
}

/// The decimal digits of `n`.
pub fn decimal_digits(n: usize) -> (r: Vec<u8>)
    ensures
        r@ == decimal(n as nat),
    decreases n,
{
    if n < 10 {
        let r = vec![0x30u8 + n as u8];
        proof { assert(r@ =~= decimal(n as nat)); }
        r
    } else {
        let mut r = decimal_digits(n / 10);
        r.push(0x30u8 + (n % 10) as u8);
        r
    }
}

/// The button number of a report.
pub open spec fn button_code(b: MouseButton) -> nat {
    match b {
        MouseButton::Left => 0,
        MouseButton::Middle => 1,
        MouseButton::Right => 2,
        MouseButton::WheelUp => 64,
        MouseButton::WheelDown => 65,
    }
}

/// Whether `b` is a wheel, which has no release.
pub open spec fn is_wheel(b: MouseButton) -> bool {
    b == MouseButton::WheelUp || b == MouseButton::WheelDown
}

/// A mouse event as the encoder sees it.
#[derive(Clone, Copy, Debug, PartialEq, Eq, Structural)]
pub enum MouseEvent {
    ButtonPress(MouseButton, Vector2),
    ButtonRelease(MouseButton, Vector2),
    Move(Vector2),
}

/// The button number reported for `event` while `held` is held, if the
/// tracking `mode` reports it at all: presses and releases from the normal
/// mode on, moves with a button held from the button-event mode on, and
/// every move in the any-event mode. A release reports number 3 in all but
/// the SGR format; a wheel has no release; a move adds 32.
pub open spec fn report_code(event: MouseEvent, held: Option<MouseButton>, mode: MouseTrackingMode, sgr: bool) -> Option<nat> {
    if mode == MouseTrackingMode::Disabled {
        None
    } else {
        match event {
            MouseEvent::ButtonPress(b, _) => Some(button_code(b)),
            MouseEvent::ButtonRelease(b, _) => {
                if is_wheel(b) { None } else if sgr { Some(button_code(b)) } else { Some(3nat) }
            },
            MouseEvent::Move(_) => {
                match held {
                    Some(b) => if mode == MouseTrackingMode::ButtonEvent || mode == MouseTrackingMode::AnyEvent {
                        Some(button_code(b) + 32)
                    } else {
                        None
                    },
                    None => if mode == MouseTrackingMode::AnyEvent { Some(35nat) } else { None },
                }
            },
        }
    }
}

/// Where `event` happened.
pub open spec fn event_position(event: MouseEvent) -> Vector2 {
    match event {
        MouseEvent::ButtonPress(_, p) => p,
        MouseEvent::ButtonRelease(_, p) => p,
        MouseEvent::Move(p) => p,
    }
}

/// The bytes of a report with button number `code` at `pos` (counted from
/// zero) in `format`: `ESC [ M` and three bytes of 32 plus the number and
/// the one-based coordinates in the normal format (nothing past 255), the
/// number and coordinates as UTF-8 characters in the UTF-8 format (nothing
/// past 2047),
/// `ESC [ < code ; x ; y` then `M`, or `m` for a release, in the SGR format,
/// and `ESC [ 32+code ; x ; y M` in the urxvt format.
pub open spec fn mouse_report(code: nat, pos: Vector2, release: bool, format: MouseCoordinateFormat) -> Seq<u8> {
    let x = pos.x + 1;
    let y = pos.y + 1;
    match format {
        MouseCoordinateFormat::Normal => {
            if 32 + code <= 255 && 32 + x <= 255 && 32 + y <= 255 {
                seq![0x1bu8, 0x5bu8, 0x4du8, (32 + code) as u8, (32 + x) as u8, (32 + y) as u8]
            } else {
                Seq::empty()
            }
        },
        MouseCoordinateFormat::Utf8 => {
            if 32 + x <= 2047 && 32 + y <= 2047 {
                seq![0x1bu8, 0x5bu8, 0x4du8] + encode_scalar((32 + code) as u32) + encode_scalar((32 + x) as u32)
                    + encode_scalar((32 + y) as u32)
            } else {
                Seq::empty()
            }
        },
        MouseCoordinateFormat::Sgr => {
            seq![0x1bu8, 0x5bu8, 0x3cu8] + decimal(code) + seq![0x3bu8] + decimal(x as nat) + seq![0x3bu8]
                + decimal(y as nat) + seq![if release { 0x6du8 } else { 0x4du8 }]
        },
        MouseCoordinateFormat::Urxvt => {
            seq![0x1bu8, 0x5bu8] + decimal(32 + code) + seq![0x3bu8] + decimal(x as nat) + seq![0x3bu8]
                + decimal(y as nat) + seq![0x4du8]
        },
    }
}

/// The bytes that `event` sends while `held` is held (see `report_code` and `mouse_report`).
pub open spec fn mouse_bytes(event: MouseEvent, held: Option<MouseButton>, settings: EncoderSettings) -> Seq<u8> {
    let sgr = settings.mouse_coordinate_format == MouseCoordinateFormat::Sgr;
    match report_code(event, held, settings.mouse_tracking_mode, sgr) {
        Some(code) => mouse_report(code, event_position(event), event is ButtonRelease, settings.mouse_coordinate_format),
        None => Seq::empty(),
    }
}

/// The button held after `event`: a pressed button other than a wheel is
/// held until its release.
pub open spec fn held_after(event: MouseEvent, held: Option<MouseButton>) -> Option<MouseButton> {
    match event {
        MouseEvent::ButtonPress(b, _) => if is_wheel(b) { held } else { Some(b) },
        MouseEvent::ButtonRelease(b, _) => if held == Some(b) { None } else { held },
        MouseEvent::Move(_) => held,
    }
}

/// `ESC [ I` on gaining focus, `ESC [ O` on losing it.
pub open spec fn focus_bytes(is_focus: bool) -> Seq<u8> {
    seq![0x1bu8, 0x5bu8, if is_focus { 0x49u8 } else { 0x4fu8 }]
}

/// `size` with each side at least one.
pub open spec fn at_least_one(size: Vector2) -> Vector2 {
    Vector2 { x: if size.x >= 1 { size.x } else { 1 }, y: if size.y >= 1 { size.y } else { 1 } }
}

/// Appends `s` to `out`.
fn append(out: &mut Vec<u8>, s: Vec<u8>)
    ensures
        final(out)@ == old(out)@ + s@,
{
    let mut i: usize = 0;
    while i < s.len()
        invariant
            i <= s@.len(),
            out@ == old(out)@ + s@.take(i as int),
        decreases s@.len() - i,
    {
        out.push(s[i]);
        proof { assert(out@ =~= old(out)@ + s@.take(i + 1)); }
        i = i + 1;
    }
    proof { assert(s@.take(s@.len() as int) =~= s@); }
}

/// The bytes of a mouse report (see `mouse_report`).
pub fn encode_mouse_report(code: usize, pos: Vector2, release: bool, format: MouseCoordinateFormat) -> (r: Vec<u8>)
    requires
        code <= 97,
        pos.x < usize::MAX,
        pos.y < usize::MAX,
    ensures
        r@ == mouse_report(code as nat, pos, release, format),
{
    let x = pos.x + 1;
    let y = pos.y + 1;
    match format {
        MouseCoordinateFormat::Normal => {
            if x <= 223 && y <= 223 {
                let r = vec![0x1bu8, 0x5bu8, 0x4du8, (32 + code) as u8, (32 + x) as u8, (32 + y) as u8];
                proof { assert(r@ =~= mouse_report(code as nat, pos, release, format)); }
                r
            } else {
                proof { assert(mouse_report(code as nat, pos, release, format) =~= Seq::<u8>::empty()); }
                Vec::new()
            }
        },
        MouseCoordinateFormat::Utf8 => {
            if x <= 2015 && y <= 2015 {
                let mut r = vec![0x1bu8, 0x5bu8, 0x4du8];
                append(&mut r, encode_code_point((32 + code) as u32));
                append(&mut r, encode_code_point((32 + x) as u32));
                append(&mut r, encode_code_point((32 + y) as u32));
                proof { assert(r@ =~= mouse_report(code as nat, pos, release, format)); }
                r
            } else {
                proof { assert(mouse_report(code as nat, pos, release, format) =~= Seq::<u8>::empty()); }
                Vec::new()
            }
        },
        MouseCoordinateFormat::Sgr => {
            let mut r = vec![0x1bu8, 0x5bu8, 0x3cu8];
            append(&mut r, decimal_digits(code));
            append(&mut r, vec![0x3bu8]);
            append(&mut r, decimal_digits(x));
            append(&mut r, vec![0x3bu8]);
            append(&mut r, decimal_digits(y));
            append(&mut r, vec![if release { 0x6du8 } else { 0x4du8 }]);
            proof { assert(r@ =~= mouse_report(code as nat, pos, release, format)); }
            r
        },
        MouseCoordinateFormat::Urxvt => {
            let mut r = vec![0x1bu8, 0x5bu8];
            append(&mut r, decimal_digits(32 + code));
            append(&mut r, vec![0x3bu8]);
            append(&mut r, decimal_digits(x));
            append(&mut r, vec![0x3bu8]);
            append(&mut r, decimal_digits(y));
            append(&mut r, vec![0x4du8]);
            proof { assert(r@ =~= mouse_report(code as nat, pos, release, format)); }
            r
        },
    }
}

/// The bytes that `event` sends while `held` is held (see `mouse_bytes`).
pub fn encode_mouse_event(event: MouseEvent, held: Option<MouseButton>, settings: &EncoderSettings) -> (r: Vec<u8>)
    requires
        event_position(event).x < usize::MAX,
        event_position(event).y < usize::MAX,
    ensures
        r@ == mouse_bytes(event, held, *settings),
{
    let mode = settings.mouse_tracking_mode;
    let format = settings.mouse_coordinate_format;
    let sgr = match format {
        MouseCoordinateFormat::Sgr => true,
        _ => false,
    };
    let tracking = match mode {
        MouseTrackingMode::Disabled => false,
        _ => true,
    };
    if !tracking {
        return Vec::new();
    }
    let code: Option<usize> = match event {
        MouseEvent::ButtonPress(b, _) => Some(button_number(b)),
        MouseEvent::ButtonRelease(b, _) => {
            match b {
                MouseButton::WheelUp | MouseButton::WheelDown => None,
                _ => if sgr { Some(button_number(b)) } else { Some(3) },
            }
        },
        MouseEvent::Move(_) => {
            let any = match mode {
                MouseTrackingMode::AnyEvent => true,
                _ => false,
            };
            let with_button = match mode {
                MouseTrackingMode::AnyEvent | MouseTrackingMode::ButtonEvent => true,
                _ => false,
            };
            match held {
                Some(b) => if with_button { Some(button_number(b) + 32) } else { None },
                None => if any { Some(35) } else { None },
            }
        },
    };
    let (pos, release) = match event {
        MouseEvent::ButtonPress(_, p) => (p, false),
        MouseEvent::ButtonRelease(_, p) => (p, true),
        MouseEvent::Move(p) => (p, false),
    };
    match code {
        Some(c) => encode_mouse_report(c, pos, release, format),
        None => Vec::new(),
    }
}

/// The button number of a report (see `button_code`).
fn button_number(b: MouseButton) -> (r: usize)
    ensures
        r == button_code(b),
{
    match b {
        MouseButton::Left => 0,
        MouseButton::Middle => 1,
        MouseButton::Right => 2,
        MouseButton::WheelUp => 64,
        MouseButton::WheelDown => 65,
    }
}

/// The user's side of a terminal: the keyboard, where the mouse is and which
/// button it holds, and the sizes of the grid and the window.
pub struct TerminalUser {
    keyboard: TerminalKeyboard,
    mouse_position: Vector2,
    held_button: Option<MouseButton>,
    grid_size: Vector2,
    window_size: Vector2,
}

impl TerminalUser {
    /// A user with the mouse at the top left, no button held, a fresh
    /// keyboard and one-cell grid and window.
    pub fn new() -> (r: Self)
        ensures
            r.model() == (UserModel {
                keyboard: KeyboardModel {
                    bracketed_paste: true,
                    modifiers: ModifierKey { bits: 0 },
                    keypad_mode: InputMode::Numeric,
                    cursor_key_mode: InputMode::Numeric,
                },
                mouse_position: Vector2 { x: 0, y: 0 },
                held: None,
                grid_size: Vector2 { x: 1, y: 1 },
                window_size: Vector2 { x: 1, y: 1 },
            }),
    {
        TerminalUser {
            keyboard: TerminalKeyboard::new(),
            mouse_position: Vector2 { x: 0, y: 0 },
            held_button: None,
            grid_size: Vector2 { x: 1, y: 1 },
            window_size: Vector2 { x: 1, y: 1 },
        }
    }
}

/// The user's side as plain values.
#[derive(Clone, Copy, Debug, PartialEq, Eq, Structural)]
pub struct UserModel {
    pub keyboard: KeyboardModel,
    pub mouse_position: Vector2,
    pub held: Option<MouseButton>,
    pub grid_size: Vector2,
    pub window_size: Vector2,
}

/// `keyboard` with the modes of `settings`.
pub open spec fn synced(keyboard: KeyboardModel, settings: EncoderSettings) -> KeyboardModel {
    KeyboardModel {
        bracketed_paste: settings.is_bracketed_paste_mode,
        keypad_mode: settings.keypad_input_mode,
        cursor_key_mode: settings.cursor_key_input_mode,
        ..keyboard
    }
}

impl UserModel {
    /// The user's side after `event`, the bytes to send to the program, and
    /// the request to the pseudo-terminal. Keys go by the keyboard with the
    /// modes of `settings`; a modifier key is held from its press to its
    /// release. Mouse events go by `mouse_bytes`, at the last position the
    /// mouse moved to. A grid size is at least one cell each way and is told
    /// to the pseudo-terminal; a window size is at least one each way. Focus
    /// changes are reported where the program asked for them.
    pub open spec fn after(self, event: TerminalUserEvent, settings: EncoderSettings) -> (UserModel, Seq<u8>, Option<TerminalIOControl>) {
        match event {
            TerminalUserEvent::KeyPress(k) => {
                let kb = synced(self.keyboard, settings);
                let modifiers = match k {
                    KeyCode::ModifierKey(m) => ModifierKey { bits: kb.modifiers.bits | m.bits },
                    _ => kb.modifiers,
                };
                (UserModel { keyboard: KeyboardModel { modifiers, ..kb }, ..self },
                    key_bytes_for(kb.modifiers, kb.cursor_key_mode, k), None)
            },
            TerminalUserEvent::KeyRelease(k) => {
                let kb = synced(self.keyboard, settings);
                let modifiers = match k {
                    KeyCode::ModifierKey(m) => ModifierKey { bits: kb.modifiers.bits & !m.bits },
                    _ => kb.modifiers,
                };
                (UserModel { keyboard: KeyboardModel { modifiers, ..kb }, ..self }, Seq::empty(), None)
            },
            TerminalUserEvent::GridResize(size) => {
                let s = at_least_one(size);
                (UserModel { grid_size: s, ..self }, Seq::empty(), Some(TerminalIOControl::SetSize(s)))
            },
            TerminalUserEvent::WindowResize(size) => {
                (UserModel { window_size: at_least_one(size), ..self }, Seq::empty(), None)
            },
            TerminalUserEvent::SetIsNewlineCarriageReturn(_) => (self, Seq::empty(), None),
            TerminalUserEvent::MouseMove(pos) => {
                let e = MouseEvent::Move(pos);
                (UserModel { mouse_position: pos, ..self }, mouse_bytes(e, self.held, settings), None)
            },
            TerminalUserEvent::MousePress(b) => {
                let e = MouseEvent::ButtonPress(b, self.mouse_position);
                (UserModel { held: held_after(e, self.held), ..self }, mouse_bytes(e, self.held, settings), None)
            },
            TerminalUserEvent::MouseRelease(b) => {
                let e = MouseEvent::ButtonRelease(b, self.mouse_position);
                (UserModel { held: held_after(e, self.held), ..self }, mouse_bytes(e, self.held, settings), None)
            },
            TerminalUserEvent::WindowFocus(is_focus) => {
                (self, if settings.is_report_focus { focus_bytes(is_focus) } else { Seq::empty() }, None)
            },
        }
    }
}

/// The display after `event`: a grid size, made at least one cell each way,
/// resizes the shown screen; the newline mode goes to both screens.
pub open spec fn display_after(d: DisplayModel, event: TerminalUserEvent) -> DisplayModel {
    match event {
        TerminalUserEvent::GridResize(size) => {
            let s = at_least_one(size);
            (DisplayModel { size: s, ..d }).with_current(d.current().resized(s))
        },
        TerminalUserEvent::SetIsNewlineCarriageReturn(b) => DisplayModel {
            primary: ViewportModel { is_newline_carriage_return: b, ..d.primary },
            alternate: ViewportModel { is_newline_carriage_return: b, ..d.alternate },
            ..d
        },
        _ => d,
    }
}

impl TerminalUser {
    /// The user's side as plain values.
    pub closed spec fn model(&self) -> UserModel {
        UserModel {
            keyboard: self.keyboard.model(),
            mouse_position: self.mouse_position,
            held: self.held_button,
            grid_size: self.grid_size,
            window_size: self.window_size,
        }
    }

    /// Handles `event` (see `UserModel::after` and `display_after`), with
    /// the encodings of `settings`; gives the bytes and the request to pass on.
    pub fn on_event(&mut self, event: TerminalUserEvent, display: &mut TerminalDisplay, settings: &EncoderSettings) -> (r: UserAction)
        requires
            old(display).wf(),
            old(self).model().mouse_position.x < usize::MAX,
            old(self).model().mouse_position.y < usize::MAX,
            event matches TerminalUserEvent::MouseMove(p) ==> p.x < usize::MAX && p.y < usize::MAX,
            event matches TerminalUserEvent::GridResize(s) ==> valid_size(at_least_one(s)),
        ensures
            final(display).wf(),
            final(display).model() == display_after(old(display).model(), event),
            (final(self).model(), r.write@, r.ioctl) == old(self).model().after(event, *settings),
    {
        match event {
            TerminalUserEvent::KeyPress(k) => {
                self.sync_keyboard(settings);
                let bytes = self.keyboard.on_key_press(k);
                UserAction { write: bytes, ioctl: None }
            },
            TerminalUserEvent::KeyRelease(k) => {
                self.sync_keyboard(settings);
                self.keyboard.on_key_release(k);
                UserAction { write: Vec::new(), ioctl: None }
            },
            TerminalUserEvent::GridResize(size) => {
                let s = Vector2 { x: if size.x >= 1 { size.x } else { 1 }, y: if size.y >= 1 { size.y } else { 1 } };
                display.set_size(s);
                self.grid_size = s;
                UserAction { write: Vec::new(), ioctl: Some(TerminalIOControl::SetSize(s)) }
            },
            TerminalUserEvent::WindowResize(size) => {
                self.window_size = Vector2 { x: if size.x >= 1 { size.x } else { 1 }, y: if size.y >= 1 { size.y } else { 1 } };
                UserAction { write: Vec::new(), ioctl: None }
            },
            TerminalUserEvent::SetIsNewlineCarriageReturn(b) => {
                display.set_is_newline_carriage_return(b);
                UserAction { write: Vec::new(), ioctl: None }
            },
            TerminalUserEvent::MouseMove(pos) => {
                self.mouse_position = pos;
                let bytes = encode_mouse_event(MouseEvent::Move(pos), self.held_button, settings);
                UserAction { write: bytes, ioctl: None }
            },
            TerminalUserEvent::MousePress(b) => {
                let e = MouseEvent::ButtonPress(b, self.mouse_position);
                let bytes = encode_mouse_event(e, self.held_button, settings);
                match b {
                    MouseButton::WheelUp | MouseButton::WheelDown => {},
                    _ => { self.held_button = Some(b); },
                }
                UserAction { write: bytes, ioctl: None }
            },
            TerminalUserEvent::MouseRelease(b) => {
                let e = MouseEvent::ButtonRelease(b, self.mouse_position);
                let bytes = encode_mouse_event(e, self.held_button, settings);
                if self.held_button == Some(b) {
                    self.held_button = None;
                }
                UserAction { write: bytes, ioctl: None }
            },
            TerminalUserEvent::WindowFocus(is_focus) => {
                if settings.is_report_focus {
                    let r = vec![0x1bu8, 0x5bu8, if is_focus { 0x49u8 } else { 0x4fu8 }];
                    proof { assert(r@ =~= focus_bytes(is_focus)); }
                    UserAction { write: r, ioctl: None }
                } else {
                    UserAction { write: Vec::new(), ioctl: None }
                }
            },
        }
    }

    /// Gives the keyboard the modes of `settings`.
    fn sync_keyboard(&mut self, settings: &EncoderSettings)
        ensures
            final(self).model() == (UserModel { keyboard: synced(old(self).model().keyboard, *settings), ..old(self).model() }),
    {
        self.keyboard.set_keypad_input_mode(settings.keypad_input_mode);
        self.keyboard.set_cursor_key_input_mode(settings.cursor_key_input_mode);
        self.keyboard.set_is_bracketed_paste_mode(settings.is_bracketed_paste_mode);
    }
}

/// Pressing a button other than a wheel and releasing it again leaves no
/// button held, whatever was held before.
pub proof fn lemma_button_press_then_release(b: MouseButton, p: Vector2, q: Vector2, held: Option<MouseButton>)
    requires
        !is_wheel(b),
    ensures
        held_after(MouseEvent::ButtonRelease(b, q), held_after(MouseEvent::ButtonPress(b, p), held)) == None::<MouseButton>,
{
}

/// A button press is reported with the xterm number of its button (left 0,
/// middle 1, right 2, wheel up 64, wheel down 65) whenever mouse tracking is
/// on, so different buttons are never reported alike; in the SGR format the
/// bytes are `ESC [ <`, that number, and the one-based column and row. A
/// release is reported as number 3 outside the SGR format and with its
/// button's number in it; the wheel has no release.
pub proof fn lemma_press_reports_button_number(b: MouseButton, pos: Vector2, held: Option<MouseButton>, settings: EncoderSettings)
    requires
        settings.mouse_tracking_mode != MouseTrackingMode::Disabled,
    ensures
        report_code(MouseEvent::ButtonPress(MouseButton::Left, pos), held, settings.mouse_tracking_mode, true) == Some(0nat),
        report_code(MouseEvent::ButtonPress(MouseButton::Middle, pos), held, settings.mouse_tracking_mode, true) == Some(1nat),
        report_code(MouseEvent::ButtonPress(MouseButton::Right, pos), held, settings.mouse_tracking_mode, true) == Some(2nat),
        report_code(MouseEvent::ButtonPress(MouseButton::WheelUp, pos), held, settings.mouse_tracking_mode, true) == Some(64nat),
        report_code(MouseEvent::ButtonPress(MouseButton::WheelDown, pos), held, settings.mouse_tracking_mode, true) == Some(65nat),
        forall|a: MouseButton, c: MouseButton| a != c ==>
            #[trigger] report_code(MouseEvent::ButtonPress(a, pos), held, settings.mouse_tracking_mode, true)
                != #[trigger] report_code(MouseEvent::ButtonPress(c, pos), held, settings.mouse_tracking_mode, true),
        report_code(MouseEvent::ButtonRelease(b, pos), held, settings.mouse_tracking_mode, false)
            == (if b == MouseButton::WheelUp || b == MouseButton::WheelDown { None } else { Some(3nat) }),
        report_code(MouseEvent::ButtonRelease(MouseButton::Left, pos), held, settings.mouse_tracking_mode, true) == Some(0nat),
        report_code(MouseEvent::ButtonRelease(MouseButton::Middle, pos), held, settings.mouse_tracking_mode, true) == Some(1nat),
        report_code(MouseEvent::ButtonRelease(MouseButton::Right, pos), held, settings.mouse_tracking_mode, true) == Some(2nat),
        settings.mouse_coordinate_format == MouseCoordinateFormat::Sgr && b == MouseButton::WheelUp ==>
            mouse_bytes(MouseEvent::ButtonPress(b, pos), held, settings)
                == seq![0x1bu8, 0x5bu8, 0x3cu8, 0x36u8, 0x34u8, 0x3bu8] + decimal((pos.x + 1) as nat) + seq![0x3bu8]
                    + decimal((pos.y + 1) as nat) + seq![0x4du8],
        settings.mouse_coordinate_format == MouseCoordinateFormat::Sgr && b == MouseButton::WheelDown ==>
            mouse_bytes(MouseEvent::ButtonPress(b, pos), held, settings)
                == seq![0x1bu8, 0x5bu8, 0x3cu8, 0x36u8, 0x35u8, 0x3bu8] + decimal((pos.x + 1) as nat) + seq![0x3bu8]
                    + decimal((pos.y + 1) as nat) + seq![0x4du8],
{
    reveal_with_fuel(decimal, 2);
    assert(decimal(64) =~= seq![0x36u8, 0x34u8]);
    assert(decimal(65) =~= seq![0x36u8, 0x35u8]);
    if settings.mouse_coordinate_format == MouseCoordinateFormat::Sgr && (b == MouseButton::WheelUp || b == MouseButton::WheelDown) {
        let code = button_code(b);
        assert(seq![0x1bu8, 0x5bu8, 0x3cu8] + decimal(code) =~= seq![0x1bu8, 0x5bu8, 0x3cu8, 0x36u8, (0x30 + code % 10) as u8]);
        assert(mouse_bytes(MouseEvent::ButtonPress(b, pos), held, settings)
            =~= seq![0x1bu8, 0x5bu8, 0x3cu8, 0x36u8, (0x30 + code % 10) as u8, 0x3bu8] + decimal((pos.x + 1) as nat) + seq![0x3bu8]
                + decimal((pos.y + 1) as nat) + seq![0x4du8]);
    }
}

} // verus!
