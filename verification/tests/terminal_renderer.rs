use wgpu_terminal::primitives::Vector2;
use wgpu_terminal::terminal_core::TerminalCore;
use wgpu_terminal::terminal_renderer::TerminalRenderer;

fn terminal(w: usize, h: usize) -> TerminalCore {
    let mut t = TerminalCore::new(true);
    t.get_display_mut().set_size(Vector2::new(w, h));
    t
}

fn picture(renderer: &TerminalRenderer) -> Vec<String> {
    let size = renderer.get_size();
    let cells = renderer.get_cells();
    cells.chunks(size.x).map(|row| row.iter().map(|c| c.character).collect()).collect()
}

#[test]
fn bottom_shows_screen_with_cursor() {
    let mut t = terminal(4, 2);
    t.on_ascii_data(b"ab");
    let mut renderer = TerminalRenderer::default();
    renderer.render_display(t.get_display());
    assert_eq!(renderer.get_size(), Vector2::new(4, 2));
    assert_eq!(picture(&renderer), vec!["ab  ".to_string(), "    ".to_string()]);
    let cells = renderer.get_cells();
    let pen = t.get_display().get_current_viewport().get_pen();
    // the cell under the cursor has its colours swapped
    assert_eq!(cells[2].pen.foreground_colour, pen.background_colour);
    assert_eq!(cells[2].pen.background_colour, pen.foreground_colour);
    assert_eq!(cells[1].pen.foreground_colour, pen.foreground_colour);
}

#[test]
fn scrolling_shows_history_above_screen() {
    let mut t = terminal(4, 2);
    t.on_ascii_data(b"11\n22\n33\n44");
    let mut renderer = TerminalRenderer::default();
    renderer.render_display(t.get_display());
    assert_eq!(picture(&renderer), vec!["33  ".to_string(), "44  ".to_string()]);
    // the history ends with the line being extended, empty after a line break
    renderer.scroll_up(1);
    renderer.render_display(t.get_display());
    assert_eq!(picture(&renderer), vec!["    ".to_string(), "33  ".to_string()]);
    renderer.scroll_up(1);
    renderer.render_display(t.get_display());
    assert_eq!(picture(&renderer), vec!["22  ".to_string(), "    ".to_string()]);
    renderer.scroll_to_top();
    renderer.render_display(t.get_display());
    assert_eq!(picture(&renderer), vec!["11  ".to_string(), "22  ".to_string()]);
    renderer.scroll_down(1);
    renderer.render_display(t.get_display());
    assert_eq!(picture(&renderer), vec!["22  ".to_string(), "    ".to_string()]);
    renderer.scroll_to_bottom();
    renderer.render_display(t.get_display());
    assert_eq!(picture(&renderer), vec!["33  ".to_string(), "44  ".to_string()]);
}

#[test]
fn scroll_up_then_down_returns() {
    let mut t = terminal(4, 2);
    t.on_ascii_data(b"1\n2\n3\n4\n5\n6");
    let mut renderer = TerminalRenderer::default();
    renderer.render_display(t.get_display());
    let bottom = picture(&renderer);
    renderer.scroll_up(3);
    renderer.render_display(t.get_display());
    assert_ne!(picture(&renderer), bottom);
    renderer.scroll_down(3);
    renderer.render_display(t.get_display());
    assert_eq!(picture(&renderer), bottom);
}

#[test]
fn long_history_lines_wrap() {
    let mut t = terminal(3, 2);
    t.on_ascii_data(b"abcde\nx\ny");
    let mut renderer = TerminalRenderer::default();
    renderer.scroll_to_top();
    renderer.render_display(t.get_display());
    let p = picture(&renderer);
    assert_eq!(p[0], "abc");
    assert_eq!(p[1], "de ");
}

#[test]
fn scrolling_far_up_then_as_far_down_returns_to_the_bottom() {
    let mut t = terminal(4, 2);
    t.on_ascii_data(b"1\n2\n3\n4");
    let mut renderer = TerminalRenderer::default();
    renderer.render_display(t.get_display());
    let bottom = picture(&renderer);
    renderer.scroll_up(1000);
    renderer.render_display(t.get_display());
    assert_ne!(picture(&renderer), bottom);
    renderer.scroll_down(1000);
    renderer.render_display(t.get_display());
    assert_eq!(picture(&renderer), bottom);
}
