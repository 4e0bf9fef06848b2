use wgpu_terminal::commands::{Command, GridPosition};
use wgpu_terminal::primitives::Vector2;
use wgpu_terminal::terminal_core::TerminalCore;

fn create_default_terminal() -> TerminalCore {
    let default_size = Vector2::new(48, 8);
    // treat \n as \r\n in test suite
    let mut terminal = TerminalCore::new(true);
    terminal.get_display_mut().set_size(default_size);
    terminal
}

fn check_display_matches(terminal: &TerminalCore, source: &str) {
    let display = terminal.get_display();
    let viewport = display.get_current_viewport();
    let size = viewport.get_size();
    let lines: Vec<&str> = source.split('\n').collect();
    if lines.len() > size.y {
        panic!("Reference string has more lines than display: ({}>{})", lines.len(), size.y);
    }
    let mut total_mismatch: usize = 0;
    for (y, correct_line) in lines.iter().enumerate() {
        let (row, status) = viewport.get_row(y);
        let given_line: String = row[..status.length].iter().map(|c| c.character).collect();
        if given_line.as_str() != *correct_line {
            println!("{:>2},{:>2} | {}", y, status.length, given_line);
            println!("  ,{:>2} : {}", correct_line.len(), correct_line);
            total_mismatch += 1;
        }
    }
    if total_mismatch > 0 {
        panic!("Viewport did not match expected string");
    }
}

fn check_cursor_matches(terminal: &TerminalCore, pos: Vector2) {
    let display = terminal.get_display();
    let cursor = display.get_current_viewport().get_cursor();
    if cursor != pos {
        panic!("Cursor position expected to be ({},{}) but got ({},{})", pos.x, pos.y, cursor.x, cursor.y);
    }
}

fn viewport_size(terminal: &TerminalCore) -> Vector2 {
    terminal.get_display().get_current_viewport().get_size()
}

#[test]
fn write_to_display() {
    let mut core = create_default_terminal();
    let test_line: &str = "abcdefghijklmnopqrstuvwxyz0123456789";
    core.on_ascii_data(test_line.as_bytes());
    check_display_matches(&core, test_line);
    check_cursor_matches(&core, Vector2::new(test_line.len(), 0));
}

#[test]
fn write_to_display_multline() {
    let mut core = create_default_terminal();
    let test_lines: &str = "\
        line 0: abc\n\
        line 1: 123\n\
        line 2: 345\n";
    core.on_ascii_data(test_lines.as_bytes());
    check_display_matches(&core, test_lines);
    check_cursor_matches(&core, Vector2::new(0, 3));
}

#[test]
fn move_cursor() {
    let mut core = create_default_terminal();
    let size = viewport_size(&core);
    for stride in 1..size.y {
        let pos = stride;
        let stride = stride as u16;
        core.on_vt100(Command::MoveCursorDown(stride));
        check_cursor_matches(&core, Vector2::new(0, pos));
        core.on_vt100(Command::MoveCursorUp(stride));
        check_cursor_matches(&core, Vector2::new(0, 0));
        core.on_vt100(Command::MoveCursorRight(stride));
        check_cursor_matches(&core, Vector2::new(pos, 0));
        core.on_vt100(Command::MoveCursorLeft(stride));
        check_cursor_matches(&core, Vector2::new(0, 0));
    }
}

#[test]
fn move_cursor_past_limits() {
    let mut core = create_default_terminal();
    let size = viewport_size(&core);
    core.on_vt100(Command::MoveCursorDown(2 * size.y as u16));
    check_cursor_matches(&core, Vector2::new(0, size.y - 1));
    core.on_vt100(Command::MoveCursorUp(2 * size.y as u16));
    check_cursor_matches(&core, Vector2::new(0, 0));
    // cursor.x can overflow until change is committed
    core.on_vt100(Command::MoveCursorRight(2 * size.x as u16));
    check_cursor_matches(&core, Vector2::new(size.x, 0));
    core.on_vt100(Command::MoveCursorLeft(2 * size.x as u16));
    check_cursor_matches(&core, Vector2::new(0, 0));
}

#[test]
fn replace_entire_line_with_spaces() {
    let mut core = create_default_terminal();
    let test_line = b"abcdefghijklmnopqrstuvwxyz0123456789";
    core.on_ascii_data(test_line);
    core.on_vt100(Command::MoveCursorPositionViewport(GridPosition { x: 1, y: 1 }));
    core.on_vt100(Command::ReplaceWithSpaces(test_line.len() as u16));
    check_display_matches(&core, "                                    ");
    check_cursor_matches(&core, Vector2::new(0, 0));
}

#[test]
fn replace_partial_line_with_spaces() {
    let mut core = create_default_terminal();
    let test_line = b"abcdefghijklmnopqrstuvwxyz0123456789";
    core.on_ascii_data(test_line);
    core.on_vt100(Command::MoveCursorPositionViewport(GridPosition { x: 1, y: 1 }));
    let erase_length = 16;
    core.on_vt100(Command::ReplaceWithSpaces(erase_length));
    check_display_matches(&core, "                qrstuvwxyz0123456789");
    check_cursor_matches(&core, Vector2::new(0, 0));
}

#[test]
fn insert_lines() {
    let mut core = create_default_terminal();
    let test_lines: &str = "\
        line 0: abc\n\
        line 1: 123\n\
        line 2: 345\n\
        line 3: def\n";
    core.on_ascii_data(test_lines.as_bytes());
    check_display_matches(&core, test_lines);

    check_cursor_matches(&core, Vector2::new(0, 4));
    core.on_vt100(Command::MoveCursorUp(3));
    check_cursor_matches(&core, Vector2::new(0, 1));
    core.on_vt100(Command::InsertLines(2));
    check_cursor_matches(&core, Vector2::new(0, 1));
    let test_lines: &str = "\
        line 0: abc\n\
        \n\
        \n\
        line 1: 123\n\
        line 2: 345\n\
        line 3: def\n";
    check_display_matches(&core, test_lines);

    core.on_vt100(Command::MoveCursorDown(3));
    check_cursor_matches(&core, Vector2::new(0, 4));
    core.on_vt100(Command::InsertLines(2));
    check_cursor_matches(&core, Vector2::new(0, 4));
    let test_lines: &str = "\
        line 0: abc\n\
        \n\
        \n\
        line 1: 123\n\
        \n\
        \n\
        line 2: 345\n\
        line 3: def";
    check_display_matches(&core, test_lines);
}

#[test]
fn delete_lines() {
    let mut core = create_default_terminal();
    let test_lines: &str = "\
        line 0: abc\n\
        line 1: 123\n\
        line 2: 345\n\
        line 3: def\n\
        line 4: 789\n\
        line 5: ghi\n\
        line 6: @#$\n";
    core.on_ascii_data(test_lines.as_bytes());
    check_display_matches(&core, test_lines);

    check_cursor_matches(&core, Vector2::new(0, 7));
    core.on_vt100(Command::MoveCursorUp(3));
    check_cursor_matches(&core, Vector2::new(0, 4));
    core.on_vt100(Command::DeleteLines(1));
    check_cursor_matches(&core, Vector2::new(0, 4));
    let test_lines: &str = "\
        line 0: abc\n\
        line 1: 123\n\
        line 2: 345\n\
        line 3: def\n\
        line 5: ghi\n\
        line 6: @#$\n\n";
    check_display_matches(&core, test_lines);

    core.on_vt100(Command::MoveCursorUp(3));
    check_cursor_matches(&core, Vector2::new(0, 1));
    core.on_vt100(Command::DeleteLines(4));
    check_cursor_matches(&core, Vector2::new(0, 1));
    let test_lines: &str = "\
        line 0: abc\n\
        line 6: @#$\n\n\n\n\n";
    check_display_matches(&core, test_lines);

    core.on_vt100(Command::MoveCursorUp(1));
    check_cursor_matches(&core, Vector2::new(0, 0));
    core.on_vt100(Command::DeleteLines(1));
    check_cursor_matches(&core, Vector2::new(0, 0));
    let test_lines: &str = "\
        line 6: @#$\n\n\n\n\n\n";
    check_display_matches(&core, test_lines);
}

#[test]
fn write_with_scrollback() {
    let mut core = create_default_terminal();
    let test_lines: &str = "\
        line 0: abc\n\
        line 1: 123\n\
        line 2: 345\n\
        line 3: def\n\
        line 4: 789\n\
        line 5: ghi\n\
        line 6: @#$\n";
    core.on_ascii_data(test_lines.as_bytes());
    check_display_matches(&core, test_lines);
    check_cursor_matches(&core, Vector2::new(0, 7));

    let test_lines: &str = "\
        line 0: abc\n\
        line 1: 123\n\
        line 2: 345\n\
        line 3: def\n\
        line 4: 789\n\
        line 5: ghi\n\
        line 6: @#$\n\
        line 7: Get out of my way";
    let new_line = "line 7: Get out of my way";
    core.on_ascii_data(new_line.as_bytes());
    check_display_matches(&core, test_lines);
    check_cursor_matches(&core, Vector2::new(new_line.len(), 7));

    let test_lines: &str = "\
        line 1: 123\n\
        line 2: 345\n\
        line 3: def\n\
        line 4: 789\n\
        line 5: ghi\n\
        line 6: @#$\n\
        line 7: Get out of my way\n";
    core.on_ascii_data(b"\n");
    check_display_matches(&core, test_lines);
    check_cursor_matches(&core, Vector2::new(0, 7));

    let display = core.get_display();
    let scrollback_buffer = display.get_current_viewport().get_scrollback_buffer().unwrap();
    let lines = scrollback_buffer.get_lines();
    // scrollback buffer has a pending line segment for consuming new ejected lines
    assert!(lines.len() == 2);
    let line = scrollback_buffer.get_row(&lines[0]);
    let line_string: String = line.iter().map(|c| c.character).collect();
    assert!(line_string.as_str() == "line 0: abc");
}

#[test]
fn save_restore_cursor_from_memory() {
    let mut core = create_default_terminal();
    let test_lines: &str = "\
        line 0: abc\n\
        line 1: 123\n\
        line 2: 345";
    let expected_save_cursor = Vector2::new(11, 2);
    core.on_ascii_data(test_lines.as_bytes());
    check_display_matches(&core, test_lines);
    check_cursor_matches(&core, expected_save_cursor);

    core.on_vt100(Command::SaveCursorToMemory);
    let test_lines: &str = "\
        def-continue\n\
        line 3: ghi\n\
        line 4: 456\n";
    core.on_ascii_data(test_lines.as_bytes());
    let test_lines: &str = "\
        line 0: abc\n\
        line 1: 123\n\
        line 2: 345def-continue\n\
        line 3: ghi\n\
        line 4: 456\n";
    check_display_matches(&core, test_lines);
    check_cursor_matches(&core, Vector2::new(0, 5));

    core.on_vt100(Command::RestoreCursorFromMemory);
    check_display_matches(&core, test_lines);
    check_cursor_matches(&core, expected_save_cursor);

    core.on_ascii_data(b"456@");
    let test_lines: &str = "\
        line 0: abc\n\
        line 1: 123\n\
        line 2: 345456@continue\n\
        line 3: ghi\n\
        line 4: 456\n";
    check_display_matches(&core, test_lines);
    check_cursor_matches(&core, Vector2::new(15, 2));
}

#[test]
fn deleted_lines_leave_empty_rows_ending_in_line_breaks() {
    let mut core = create_default_terminal();
    core.on_ascii_data(b"one\ntwo\nthree\nfour");
    core.on_vt100(Command::MoveCursorUp(2));
    core.on_vt100(Command::DeleteLines(2));
    let display = core.get_display();
    let viewport = display.get_current_viewport();
    let size = viewport.get_size();
    let (_, status) = viewport.get_row(1);
    assert_eq!(status.length, 4);
    for y in (size.y - 2)..size.y {
        let (_, status) = viewport.get_row(y);
        assert_eq!(status.length, 0);
        assert!(status.is_linebreak);
    }
}
