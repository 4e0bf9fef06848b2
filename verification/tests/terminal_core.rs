use wgpu_terminal::colour_table::{xterm_colour, xterm_colour_table};
use wgpu_terminal::commands::{
    Command, CursorStyle, EraseMode, GraphicStyle, GridPosition, InputMode, MouseCoordinateFormat, MouseTrackingMode,
    WindowAction,
};
use wgpu_terminal::primitives::{Rgb8, Vector2, STYLE_BOLD, STYLE_UNDERLINE};
use wgpu_terminal::terminal_core::TerminalCore;

fn terminal() -> TerminalCore {
    let mut t = TerminalCore::new(true);
    t.get_display_mut().set_size(Vector2::new(20, 4));
    t
}

fn row_text(t: &TerminalCore, y: usize) -> String {
    let (row, status) = t.get_display().get_current_viewport().get_row(y);
    row[..status.length].iter().map(|c| c.character).collect()
}

fn run(t: &mut TerminalCore, c: Command) -> Option<WindowAction> {
    assert!(t.accepts_command(&c));
    t.on_vt100(c)
}

fn cursor(t: &TerminalCore) -> Vector2 {
    t.get_display().get_current_viewport().get_cursor()
}

#[test]
fn palette_values() {
    assert_eq!(xterm_colour(1), Rgb8 { r: 0xcd, g: 0, b: 0 });
    assert_eq!(xterm_colour(12), Rgb8 { r: 0x5c, g: 0x5c, b: 0xff });
    assert_eq!(xterm_colour(16), Rgb8 { r: 0, g: 0, b: 0 });
    assert_eq!(xterm_colour(196), Rgb8 { r: 255, g: 0, b: 0 });
    assert_eq!(xterm_colour(110), Rgb8 { r: 135, g: 175, b: 215 });
    assert_eq!(xterm_colour(232), Rgb8 { r: 8, g: 8, b: 8 });
    assert_eq!(xterm_colour(255), Rgb8 { r: 238, g: 238, b: 238 });
    let table = xterm_colour_table();
    assert_eq!(table.len(), 256);
    for i in 0..256usize {
        assert_eq!(table[i], xterm_colour(i as u8));
    }
}

#[test]
fn graphic_styles_change_the_pen() {
    let mut t = terminal();
    let default_pen = t.get_display().get_current_viewport().get_default_pen();
    run(&mut t, Command::SetGraphicStyle(GraphicStyle::ForegroundRed));
    run(&mut t, Command::SetGraphicStyle(GraphicStyle::EnableBold));
    run(&mut t, Command::SetGraphicStyle(GraphicStyle::EnableUnderline));
    let pen = t.get_display().get_current_viewport().get_pen();
    assert_eq!(pen.foreground_colour, xterm_colour(1));
    assert_eq!(pen.style_flags.bits, STYLE_BOLD | STYLE_UNDERLINE);
    run(&mut t, Command::SetGraphicStyle(GraphicStyle::DisableWeight));
    assert_eq!(t.get_display().get_current_viewport().get_pen().style_flags.bits, STYLE_UNDERLINE);
    run(&mut t, Command::SetBackgroundColourTable(196));
    assert_eq!(t.get_display().get_current_viewport().get_pen().background_colour, Rgb8 { r: 255, g: 0, b: 0 });
    run(&mut t, Command::SetForegroundColourRgb(Rgb8 { r: 1, g: 2, b: 3 }));
    assert_eq!(t.get_display().get_current_viewport().get_pen().foreground_colour, Rgb8 { r: 1, g: 2, b: 3 });
    t.on_ascii_data(b"x");
    let (row, _) = t.get_display().get_current_viewport().get_row(0);
    assert_eq!(row[0].pen.foreground_colour, Rgb8 { r: 1, g: 2, b: 3 });
    run(&mut t, Command::SetGraphicStyle(GraphicStyle::ResetAll));
    assert_eq!(t.get_display().get_current_viewport().get_pen(), default_pen);
}

#[test]
fn insert_and_delete_characters() {
    let mut t = terminal();
    t.on_ascii_data(b"abcdef");
    run(&mut t, Command::MoveCursorHorizontalAbsolute(2));
    assert_eq!(cursor(&t), Vector2::new(1, 0));
    run(&mut t, Command::InsertSpaces(2));
    assert_eq!(row_text(&t, 0), "a  bcdef");
    run(&mut t, Command::DeleteCharacters(2));
    assert_eq!(row_text(&t, 0), "a cdef");
}

#[test]
fn erase_modes() {
    let mut t = terminal();
    t.on_ascii_data(b"abcdef\nghijkl\nmnopqr");
    run(&mut t, Command::MoveCursorPositionViewport(GridPosition { x: 3, y: 2 }));
    assert_eq!(cursor(&t), Vector2::new(2, 1));
    run(&mut t, Command::EraseInLine(EraseMode::FromCursorToStart));
    assert_eq!(row_text(&t, 1), "   jkl");
    run(&mut t, Command::EraseInLine(EraseMode::FromCursorToEnd));
    assert_eq!(row_text(&t, 1).trim_end(), "");
    assert_eq!(row_text(&t, 0), "abcdef");
    run(&mut t, Command::ReplaceWithSpaces(3));
    run(&mut t, Command::MoveCursorPositionViewport(GridPosition { x: 1, y: 3 }));
    run(&mut t, Command::EraseInDisplay(EraseMode::FromCursorToStart));
    // erased rows above the cursor are written to the last column with spaces
    assert_eq!(row_text(&t, 0), " ".repeat(20));
    assert_eq!(row_text(&t, 2), " nopqr");
    run(&mut t, Command::EraseInDisplay(EraseMode::EntireDisplay));
    for y in 0..4 {
        assert_eq!(row_text(&t, y), " ".repeat(20));
    }
}

#[test]
fn cursor_moves_stay_on_screen() {
    let mut t = terminal();
    assert_eq!(run(&mut t, Command::MoveCursorDown(100)), Some(WindowAction::Refresh));
    assert_eq!(cursor(&t), Vector2::new(0, 3));
    // the cursor may stand one past the last column
    run(&mut t, Command::MoveCursorRight(100));
    assert_eq!(cursor(&t), Vector2::new(20, 3));
    run(&mut t, Command::MoveCursorUp(2));
    assert_eq!(cursor(&t), Vector2::new(20, 1));
    run(&mut t, Command::MoveCursorLeft(5));
    assert_eq!(cursor(&t), Vector2::new(15, 1));
    run(&mut t, Command::MoveCursorVerticalAbsolute(1));
    assert_eq!(cursor(&t), Vector2::new(15, 0));
    run(&mut t, Command::MoveCursorReverseIndex);
    assert_eq!(cursor(&t), Vector2::new(15, 0));
}

#[test]
fn settings_and_window_requests() {
    let mut t = terminal();
    assert_eq!(run(&mut t, Command::SetCursorKeyInputMode(InputMode::Application)), None);
    assert_eq!(t.get_encoder().cursor_key_input_mode, InputMode::Application);
    run(&mut t, Command::SetKeypadMode(InputMode::Application));
    assert_eq!(t.get_encoder().keypad_input_mode, InputMode::Application);
    run(&mut t, Command::SetBracketedPasteMode(false));
    assert!(!t.get_encoder().is_bracketed_paste_mode);
    run(&mut t, Command::SetMouseTrackingMode(MouseTrackingMode::Highlight));
    assert_eq!(t.get_encoder().mouse_tracking_mode, MouseTrackingMode::Normal);
    run(&mut t, Command::SetMouseCoordinateFormat(MouseCoordinateFormat::Sgr));
    assert_eq!(t.get_encoder().mouse_coordinate_format, MouseCoordinateFormat::Sgr);
    run(&mut t, Command::SetReportFocus(true));
    assert!(t.get_encoder().is_report_focus);
    assert_eq!(run(&mut t, Command::SetCursorStyle(CursorStyle::Bar)), Some(WindowAction::Refresh));
    assert_eq!(t.get_display().get_cursor_status().style, CursorStyle::Bar);
    run(&mut t, Command::SetCursorVisible(false));
    assert!(!t.get_display().get_cursor_status().is_visible);
    let title = WindowAction::SetWindowTitle(String::from("shell"));
    assert_eq!(run(&mut t, Command::WindowAction(title.clone())), Some(title));
}

#[test]
fn alternate_screen_keeps_primary() {
    let mut t = terminal();
    t.on_ascii_data(b"main");
    run(&mut t, Command::SetAlternateBuffer(true));
    assert_eq!(row_text(&t, 0), "");
    t.on_ascii_data(b"alt");
    assert_eq!(row_text(&t, 0), "alt");
    run(&mut t, Command::SetAlternateBuffer(false));
    assert_eq!(row_text(&t, 0), "main");
}

#[test]
fn utf8_characters_are_written() {
    let mut t = terminal();
    t.on_utf8('é');
    t.on_utf8('→');
    assert_eq!(row_text(&t, 0), "é→");
    assert_eq!(cursor(&t), Vector2::new(2, 0));
}

#[test]
fn delete_past_last_column_is_refused() {
    let mut t = terminal();
    t.on_ascii_data(b"abcdefghijklmnopqrst");
    assert_eq!(cursor(&t), Vector2::new(20, 0));
    assert!(!t.accepts_command(&Command::DeleteCharacters(1)));
    assert!(t.accepts_command(&Command::InsertSpaces(1)));
}

#[test]
fn insert_then_delete_lines_keeps_rows_above_the_bottom() {
    let mut t = terminal();
    t.on_ascii_data(b"aa\nbb\ncc\ndd");
    run(&mut t, Command::MoveCursorPositionViewport(GridPosition { x: 1, y: 2 }));
    run(&mut t, Command::InsertLines(2));
    assert_eq!(row_text(&t, 0), "aa");
    assert_eq!(row_text(&t, 3), "bb");
    run(&mut t, Command::DeleteLines(2));
    assert_eq!(row_text(&t, 0), "aa");
    assert_eq!(row_text(&t, 1), "bb");
    assert_eq!(row_text(&t, 2), "");
    assert_eq!(row_text(&t, 3), "");
    assert_eq!(cursor(&t), Vector2::new(0, 1));
}

#[test]
fn resize_to_same_size_changes_nothing() {
    let mut t = terminal();
    t.on_ascii_data(b"hello\nworld");
    let before = cursor(&t);
    t.get_display_mut().set_size(Vector2::new(20, 4));
    assert_eq!(row_text(&t, 0), "hello");
    assert_eq!(row_text(&t, 1), "world");
    assert_eq!(cursor(&t), before);
}

#[test]
fn save_and_restore_cursor_round_trip() {
    let mut t = terminal();
    t.on_ascii_data(b"abc");
    assert_eq!(run(&mut t, Command::SaveCursorToMemory), None);
    run(&mut t, Command::MoveCursorPositionViewport(GridPosition { x: 10, y: 3 }));
    assert_eq!(run(&mut t, Command::RestoreCursorFromMemory), Some(WindowAction::Refresh));
    assert_eq!(cursor(&t), Vector2::new(3, 0));
}
