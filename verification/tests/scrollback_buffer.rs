use wgpu_terminal::primitives::Cell;
use wgpu_terminal::scrollback_buffer::ScrollbackBuffer;

fn cells(text: &str) -> Vec<Cell> {
    text.chars().map(|c| Cell { character: c, ..Cell::default() }).collect()
}

fn text(buffer: &ScrollbackBuffer, index: usize) -> String {
    let lines = buffer.get_lines();
    buffer.get_row(&lines[index]).iter().map(|c| c.character).collect()
}

#[test]
fn lines_collect_their_cells() {
    let mut buffer = ScrollbackBuffer::new(4, 16);
    assert!(buffer.get_lines().is_empty());
    buffer.extend_current_line(&cells("abc"));
    buffer.extend_current_line(&cells("de"));
    assert_eq!(buffer.get_lines().len(), 1);
    assert_eq!(text(&buffer, 0), "abcde");
    buffer.advance_line();
    buffer.extend_current_line(&cells("fg"));
    assert_eq!(buffer.get_lines().len(), 2);
    assert_eq!(text(&buffer, 1), "fg");
    let lines = buffer.get_lines();
    assert_eq!(lines[1].get_start(), 5);
    assert_eq!(lines[1].get_length(), 2);
}

#[test]
fn oldest_line_leaves_when_lines_are_full() {
    let mut buffer = ScrollbackBuffer::new(2, 16);
    buffer.extend_current_line(&cells("a"));
    buffer.advance_line();
    buffer.extend_current_line(&cells("b"));
    buffer.advance_line();
    let lines = buffer.get_lines();
    assert_eq!(lines.len(), 2);
    assert_eq!(text(&buffer, 0), "b");
    assert_eq!(text(&buffer, 1), "");
}

#[test]
fn oldest_cells_are_overwritten_when_cells_are_full() {
    let mut buffer = ScrollbackBuffer::new(8, 6);
    buffer.extend_current_line(&cells("abc"));
    buffer.advance_line();
    buffer.extend_current_line(&cells("defgh"));
    // "abc" lost its first two cells to "gh": the line is gone
    let lines = buffer.get_lines();
    assert_eq!(lines.len(), 1);
    assert_eq!(text(&buffer, 0), "defgh");
}

#[test]
fn long_line_keeps_its_last_cells() {
    let mut buffer = ScrollbackBuffer::new(4, 4);
    buffer.extend_current_line(&cells("abcdefghij"));
    assert_eq!(buffer.get_lines().len(), 1);
    assert_eq!(text(&buffer, 0), "ghij");
}
