use wgpu_terminal::commands::{InputMode, MouseCoordinateFormat, MouseTrackingMode};
use wgpu_terminal::primitives::Vector2;
use wgpu_terminal::terminal_core::EncoderSettings;
use wgpu_terminal::terminal_display::TerminalDisplay;
use wgpu_terminal::terminal_keyboard::{ArrowKey, KeyCode, ModifierKey, MODIFIER_CTRL};
use wgpu_terminal::terminal_user::{
    decimal_digits, encode_mouse_event, encode_mouse_report, MouseButton, MouseEvent, TerminalIOControl,
    TerminalUser, TerminalUserEvent,
};

fn settings(mode: MouseTrackingMode, format: MouseCoordinateFormat) -> EncoderSettings {
    EncoderSettings {
        keypad_input_mode: InputMode::Numeric,
        cursor_key_input_mode: InputMode::Numeric,
        is_bracketed_paste_mode: true,
        mouse_tracking_mode: mode,
        mouse_coordinate_format: format,
        is_report_focus: false,
    }
}

#[test]
fn decimal_digits_of_numbers() {
    assert_eq!(decimal_digits(0), b"0".to_vec());
    assert_eq!(decimal_digits(7), b"7".to_vec());
    assert_eq!(decimal_digits(10), b"10".to_vec());
    assert_eq!(decimal_digits(1234567890), b"1234567890".to_vec());
}

#[test]
fn mouse_report_formats() {
    let p = Vector2 { x: 4, y: 9 };
    assert_eq!(encode_mouse_report(0, p, false, MouseCoordinateFormat::Normal), vec![0x1b, b'[', b'M', 32, 37, 42]);
    assert_eq!(encode_mouse_report(0, p, false, MouseCoordinateFormat::Sgr), b"\x1b[<0;5;10M".to_vec());
    assert_eq!(encode_mouse_report(2, p, true, MouseCoordinateFormat::Sgr), b"\x1b[<2;5;10m".to_vec());
    assert_eq!(encode_mouse_report(0, p, false, MouseCoordinateFormat::Urxvt), b"\x1b[32;5;10M".to_vec());
    let far = Vector2 { x: 300, y: 0 };
    assert!(encode_mouse_report(0, far, false, MouseCoordinateFormat::Normal).is_empty());
    let mut expected = b"\x1b[M ".to_vec();
    expected.extend_from_slice("\u{14d}".as_bytes());
    expected.push(33);
    assert_eq!(encode_mouse_report(0, far, false, MouseCoordinateFormat::Utf8), expected);
}

#[test]
fn mouse_tracking_modes_filter_events() {
    let p = Vector2 { x: 0, y: 0 };
    let disabled = settings(MouseTrackingMode::Disabled, MouseCoordinateFormat::Sgr);
    assert!(encode_mouse_event(MouseEvent::ButtonPress(MouseButton::Left, p), None, &disabled).is_empty());
    let normal = settings(MouseTrackingMode::Normal, MouseCoordinateFormat::Sgr);
    assert_eq!(encode_mouse_event(MouseEvent::ButtonPress(MouseButton::Right, p), None, &normal), b"\x1b[<2;1;1M".to_vec());
    assert!(encode_mouse_event(MouseEvent::Move(p), Some(MouseButton::Left), &normal).is_empty());
    let button = settings(MouseTrackingMode::ButtonEvent, MouseCoordinateFormat::Sgr);
    assert_eq!(encode_mouse_event(MouseEvent::Move(p), Some(MouseButton::Left), &button), b"\x1b[<32;1;1M".to_vec());
    assert!(encode_mouse_event(MouseEvent::Move(p), None, &button).is_empty());
    let any = settings(MouseTrackingMode::AnyEvent, MouseCoordinateFormat::Sgr);
    assert_eq!(encode_mouse_event(MouseEvent::Move(p), None, &any), b"\x1b[<35;1;1M".to_vec());
    let normal_format = settings(MouseTrackingMode::Normal, MouseCoordinateFormat::Normal);
    assert_eq!(encode_mouse_event(MouseEvent::ButtonRelease(MouseButton::Left, p), None, &normal_format), vec![0x1b, b'[', b'M', 35, 33, 33]);
    assert!(encode_mouse_event(MouseEvent::ButtonRelease(MouseButton::WheelUp, p), None, &normal).is_empty());
    assert_eq!(encode_mouse_event(MouseEvent::ButtonPress(MouseButton::WheelDown, p), None, &normal), b"\x1b[<65;1;1M".to_vec());
}

#[test]
fn user_mouse_events_use_last_position() {
    let mut user = TerminalUser::new();
    let mut display = TerminalDisplay::default();
    let s = settings(MouseTrackingMode::ButtonEvent, MouseCoordinateFormat::Sgr);
    let r = user.on_event(TerminalUserEvent::MouseMove(Vector2 { x: 3, y: 2 }), &mut display, &s);
    assert!(r.write.is_empty());
    let r = user.on_event(TerminalUserEvent::MousePress(MouseButton::Left), &mut display, &s);
    assert_eq!(r.write, b"\x1b[<0;4;3M".to_vec());
    let r = user.on_event(TerminalUserEvent::MouseMove(Vector2 { x: 5, y: 2 }), &mut display, &s);
    assert_eq!(r.write, b"\x1b[<32;6;3M".to_vec());
    let r = user.on_event(TerminalUserEvent::MouseRelease(MouseButton::Left), &mut display, &s);
    assert_eq!(r.write, b"\x1b[<0;6;3m".to_vec());
    let r = user.on_event(TerminalUserEvent::MouseMove(Vector2 { x: 1, y: 1 }), &mut display, &s);
    assert!(r.write.is_empty());
}

#[test]
fn user_focus_and_keys() {
    let mut user = TerminalUser::new();
    let mut display = TerminalDisplay::default();
    let mut s = settings(MouseTrackingMode::Disabled, MouseCoordinateFormat::Normal);
    assert!(user.on_event(TerminalUserEvent::WindowFocus(true), &mut display, &s).write.is_empty());
    s.is_report_focus = true;
    assert_eq!(user.on_event(TerminalUserEvent::WindowFocus(true), &mut display, &s).write, b"\x1b[I".to_vec());
    assert_eq!(user.on_event(TerminalUserEvent::WindowFocus(false), &mut display, &s).write, b"\x1b[O".to_vec());
    s.cursor_key_input_mode = InputMode::Application;
    let r = user.on_event(TerminalUserEvent::KeyPress(KeyCode::ArrowKey(ArrowKey::Down)), &mut display, &s);
    assert_eq!(r.write, b"\x1bOB".to_vec());
    user.on_event(TerminalUserEvent::KeyPress(KeyCode::ModifierKey(ModifierKey { bits: MODIFIER_CTRL })), &mut display, &s);
    assert_eq!(user.on_event(TerminalUserEvent::KeyPress(KeyCode::Char('d')), &mut display, &s).write, vec![4]);
    user.on_event(TerminalUserEvent::KeyRelease(KeyCode::ModifierKey(ModifierKey { bits: MODIFIER_CTRL })), &mut display, &s);
    assert_eq!(user.on_event(TerminalUserEvent::KeyPress(KeyCode::Char('d')), &mut display, &s).write, b"d".to_vec());
}

#[test]
fn user_grid_resize_reaches_display_and_pty() {
    let mut user = TerminalUser::new();
    let mut display = TerminalDisplay::default();
    let s = settings(MouseTrackingMode::Disabled, MouseCoordinateFormat::Normal);
    let r = user.on_event(TerminalUserEvent::GridResize(Vector2 { x: 0, y: 12 }), &mut display, &s);
    assert_eq!(r.ioctl, Some(TerminalIOControl::SetSize(Vector2 { x: 1, y: 12 })));
    assert_eq!(display.get_current_viewport().get_size(), Vector2 { x: 1, y: 12 });
    let r = user.on_event(TerminalUserEvent::GridResize(Vector2 { x: 80, y: 24 }), &mut display, &s);
    assert_eq!(r.ioctl, Some(TerminalIOControl::SetSize(Vector2 { x: 80, y: 24 })));
    assert_eq!(display.get_current_viewport().get_size(), Vector2 { x: 80, y: 24 });
    let r = user.on_event(TerminalUserEvent::WindowResize(Vector2 { x: 0, y: 0 }), &mut display, &s);
    assert_eq!(r.ioctl, None);
    assert!(r.write.is_empty());
}
