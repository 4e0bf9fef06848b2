use wgpu_terminal::glyph_atlas::{BitmapPlacement, GlyphAtlas, GlyphType};
use wgpu_terminal::primitives::Vector2;

#[test]
fn new_atlas_is_blank() {
    let atlas = GlyphAtlas::new(Vector2 { x: 2, y: 3 }, Vector2 { x: 4, y: 2 });
    assert_eq!(atlas.get_glyph_size(), Vector2 { x: 2, y: 3 });
    assert_eq!(atlas.get_grid_size(), Vector2 { x: 4, y: 2 });
    assert_eq!(atlas.get_texture_size(), Vector2 { x: 8, y: 6 });
    let view = atlas.get_texture_view();
    assert_eq!(view.len(), 48);
    assert!(view.iter().all(|t| t.data == 0));
}

#[test]
fn bitmap_lands_in_its_cell_at_its_offset() {
    let mut atlas = GlyphAtlas::new(Vector2 { x: 3, y: 3 }, Vector2 { x: 2, y: 2 });
    let placement = BitmapPlacement { offset: Vector2 { x: 1, y: 1 }, size: Vector2 { x: 2, y: 1 } };
    atlas.write_glyph_bitmap(Vector2 { x: 1, y: 0 }, &[7, 8], placement);
    let view = atlas.get_texture_view();
    // texture is 6 texels wide; cell (1, 0) starts at column 3
    for (i, t) in view.iter().enumerate() {
        let expected = match i {
            10 => 7,
            11 => 8,
            _ => 0,
        };
        assert_eq!(*t, GlyphType { data: expected }, "texel {}", i);
    }
    // drawing again clears the cell first
    let placement = BitmapPlacement { offset: Vector2 { x: 0, y: 0 }, size: Vector2 { x: 1, y: 1 } };
    atlas.write_glyph_bitmap(Vector2 { x: 1, y: 0 }, &[5], placement);
    let view = atlas.get_texture_view();
    assert_eq!(view[3].data, 5);
    assert_eq!(view[10].data, 0);
    assert_eq!(view[11].data, 0);
}
