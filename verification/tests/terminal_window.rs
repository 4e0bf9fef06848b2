use wgpu_terminal::glyph_cache::GlyphCache;
use wgpu_terminal::primitives::{Cell, Size, Vector2};
use wgpu_terminal::scrollback_buffer::ScrollbackBuffer;
use wgpu_terminal::terminal_core::TerminalCore;
use wgpu_terminal::terminal_glyphs::{history_grid_cells, viewport_cells, TerminalWindow};

fn terminal(w: usize, h: usize) -> TerminalCore {
    let mut term = TerminalCore::new(true);
    term.get_display_mut().set_size(Vector2 { x: w, y: h });
    term
}

fn text(cells: &[Cell]) -> String {
    cells.iter().map(|c| c.character).collect()
}

#[test]
fn screen_cells_are_row_major_with_default_cells_past_each_row() {
    let mut term = terminal(4, 3);
    term.on_ascii_data(b"ab\ncdef");
    let display = term.get_display();
    let cells = viewport_cells(display.get_current_viewport());
    assert_eq!(cells.len(), 12);
    assert_eq!(text(&cells), "ab  cdef    ");
    assert_eq!(cells[2], Cell::default());
    assert_eq!(cells[11], Cell::default());
}

fn cells_of(s: &str) -> Vec<Cell> {
    s.chars().map(|c| Cell { character: c, ..Cell::default() }).collect()
}

#[test]
fn history_cells_wrap_lines_and_start_each_on_a_new_row() {
    let mut history = ScrollbackBuffer::new(8, 64);
    history.extend_current_line(&cells_of("abcdef"));
    history.advance_line();
    history.extend_current_line(&cells_of("xy"));
    history.advance_line();
    history.extend_current_line(&cells_of("abc"));
    let cells = history_grid_cells(&history, 0, Vector2 { x: 3, y: 4 });
    // a line exactly as wide as the grid leaves an empty row after it
    assert_eq!(text(&cells), "abcdef   xy ");
    let cells = history_grid_cells(&history, 1, Vector2 { x: 3, y: 4 });
    assert_eq!(text(&cells), "xy abc      ");
    let cells = history_grid_cells(&history, 99, Vector2 { x: 3, y: 2 });
    assert_eq!(text(&cells), "      ");
}

#[test]
fn each_frame_takes_the_screen_cells_and_counts_itself() {
    let mut term = terminal(2, 2);
    term.on_ascii_data(b"hi");
    let mut window = TerminalWindow::new(GlyphCache::new(Vector2 { x: 8, y: 16 }, 12));
    let display = term.get_display();
    let viewport = display.get_current_viewport();
    let cells = window.take_terminal_cells(viewport);
    assert_eq!(text(&cells), "hi  ");
    let known = vec![true; cells.len()];
    let draws = window.fill_glyph_grid(Vector2 { x: 2, y: 2 }, cells, &known);
    assert!(draws.is_empty());
    assert_eq!(window.get_glyph_grid().get_size(), Vector2 { x: 2, y: 2 });
    window.toggle_scrollback_buffer();
    let cells = window.take_terminal_cells(viewport);
    assert_eq!(cells.len(), 4);
}

#[test]
fn pseudo_terminal_sizes() {
    assert_eq!(Size::new(128, 32), Size::default());
    assert_ne!(Size::new(80, 24), Size::default());
}
