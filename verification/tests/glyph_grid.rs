use wgpu_terminal::glyph_grid::{GlyphGrid, GlyphGridData, Rgba8};
use wgpu_terminal::primitives::Vector2;

#[test]
fn record_fields_pack_into_words() {
    let mut rec = GlyphGridData::zeroed();
    rec.set_page_index(3);
    rec.set_glyph_position(Vector2 { x: 5, y: 7 });
    assert_eq!(rec.data[0], 3 | (5 << 8) | (7 << 20));
    rec.set_page_index(0x1ff);
    assert_eq!(rec.data[0], 0xff | (5 << 8) | (7 << 20));
    rec.set_glyph_position(Vector2 { x: 0x1001, y: 2 });
    assert_eq!(rec.data[0], 0xff | (1 << 8) | (2 << 20));
    rec.set_foreground_colour(Rgba8 { r: 1, g: 2, b: 3, a: 4 });
    assert_eq!(rec.data[1], 0x04030201);
    rec.set_background_colour(Rgba8 { r: 0xff, g: 0, b: 0x10, a: 0xff });
    assert_eq!(rec.data[2], 0xff1000ff);
    rec.set_is_underline(true);
    assert_eq!(rec.data[3], 1);
    rec.set_is_underline(false);
    assert_eq!(rec.data[3], 0);
    assert_eq!(rec.data[1], 0x04030201);
}

#[test]
fn grid_resize_keeps_records_in_order() {
    let mut grid = GlyphGrid::new(Vector2 { x: 2, y: 2 });
    assert_eq!(grid.get_size(), Vector2 { x: 2, y: 2 });
    assert_eq!(grid.get_data().len(), 4);
    let mut rec = GlyphGridData::zeroed();
    rec.set_page_index(9);
    grid.set_data(3, rec);
    grid.resize(Vector2 { x: 3, y: 2 });
    assert_eq!(grid.get_data().len(), 6);
    assert_eq!(grid.get_data()[3], rec);
    assert_eq!(grid.get_data()[5], GlyphGridData::zeroed());
    grid.resize(Vector2 { x: 1, y: 1 });
    assert_eq!(grid.get_data().len(), 1);
    assert_eq!(grid.get_size(), Vector2 { x: 1, y: 1 });
}
