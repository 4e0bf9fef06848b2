use wgpu_terminal::primitives::Vector2;
use wgpu_terminal::tile_atlas::{GlyphAtlas, GlyphIndex};

fn index(bx: usize, by: usize, px: usize, py: usize) -> GlyphIndex {
    GlyphIndex { block: Vector2 { x: bx, y: by }, position: Vector2 { x: px, y: py } }
}

#[test]
fn new_atlas_layout() {
    // glyphs of 2 by 2 texels in at most 64 by 32 texels: a grid of 32 by 16
    // glyphs, two blocks across and two down, of 16 by 8 glyphs
    let atlas = GlyphAtlas::new(Vector2 { x: 2, y: 2 }, Vector2 { x: 64, y: 32 });
    assert_eq!(atlas.get_glyph_size(), Vector2 { x: 2, y: 2 });
    assert_eq!(atlas.get_total_glyphs_in_block(), Vector2 { x: 16, y: 8 });
    assert_eq!(atlas.get_total_blocks(), Vector2 { x: 1, y: 1 });
    assert_eq!(atlas.get_texture_size(), Vector2 { x: 32, y: 16 });
    assert_eq!(atlas.get_modified_blocks(), vec![Vector2 { x: 0, y: 0 }]);
    assert_eq!(atlas.get_block(Vector2 { x: 0, y: 0 }).len(), 512);
}

#[test]
fn small_texture_still_has_one_block() {
    let atlas = GlyphAtlas::new(Vector2 { x: 8, y: 8 }, Vector2 { x: 40, y: 24 });
    assert_eq!(atlas.get_total_glyphs_in_block(), Vector2 { x: 5, y: 3 });
    assert_eq!(atlas.get_texture_size(), Vector2 { x: 40, y: 24 });
}

#[test]
fn free_cells_fill_blocks_in_order() {
    let mut atlas = GlyphAtlas::new(Vector2 { x: 1, y: 1 }, Vector2 { x: 32, y: 16 });
    assert_eq!(atlas.get_total_glyphs_in_block(), Vector2 { x: 16, y: 8 });
    assert_eq!(atlas.get_free_index(), Some(index(0, 0, 0, 0)));
    assert!(atlas.increment_free_index());
    assert_eq!(atlas.get_free_index(), Some(index(0, 0, 1, 0)));
    for _ in 0..15 {
        atlas.increment_free_index();
    }
    assert_eq!(atlas.get_free_index(), Some(index(0, 0, 0, 1)));
    for _ in 0..(16 * 7) {
        atlas.increment_free_index();
    }
    // the second block of the first row of blocks is added when it is reached
    assert_eq!(atlas.get_total_blocks(), Vector2 { x: 1, y: 1 });
    assert_eq!(atlas.get_free_index(), Some(index(1, 0, 0, 0)));
    assert_eq!(atlas.get_total_blocks(), Vector2 { x: 2, y: 1 });
    assert_eq!(atlas.get_texture_size(), Vector2 { x: 32, y: 8 });
    for _ in 0..128 {
        atlas.increment_free_index();
    }
    assert_eq!(atlas.get_free_index(), Some(index(0, 1, 0, 0)));
    assert_eq!(atlas.get_total_blocks(), Vector2 { x: 2, y: 2 });
    for _ in 0..256 {
        atlas.increment_free_index();
    }
    assert_eq!(atlas.get_free_index(), None);
    assert!(!atlas.increment_free_index());
}

#[test]
fn written_glyph_reads_back_and_marks_its_block() {
    let mut atlas = GlyphAtlas::new(Vector2 { x: 2, y: 3 }, Vector2 { x: 64, y: 48 });
    assert_eq!(atlas.get_total_glyphs_in_block(), Vector2 { x: 16, y: 8 });
    atlas.clear_modified_count();
    assert!(atlas.get_modified_blocks().is_empty());
    let glyph = [1u8, 2, 3, 4, 5, 6];
    atlas.write_glyph(index(0, 0, 2, 1), &glyph);
    assert_eq!(atlas.get_modified_blocks(), vec![Vector2 { x: 0, y: 0 }]);
    let block = atlas.get_block(Vector2 { x: 0, y: 0 });
    let row_stride = 16 * 2;
    let base = 1 * 3 * row_stride + 2 * 2;
    for y in 0..3 {
        for x in 0..2 {
            assert_eq!(block[base + y * row_stride + x], glyph[y * 2 + x]);
        }
    }
    let written = block.iter().filter(|t| **t != 0).count();
    assert_eq!(written, 6);
}
