use wgpu_terminal::glyph_grid::Rgba8;
use wgpu_terminal::primitives::{Cell, Pen, Rgb8, StyleFlags, Vector2};
use wgpu_terminal::tile_atlas::GlyphIndex;
use wgpu_terminal::tile_cache::{update_grid_from_terminal, AtlasPosition, CellData, GlyphCache, TileDraw};

fn index(bx: usize, by: usize, px: usize, py: usize) -> GlyphIndex {
    GlyphIndex { block: Vector2 { x: bx, y: by }, position: Vector2 { x: px, y: py } }
}

fn small_cache() -> GlyphCache {
    // glyphs of one texel in at most 16 by 8 texels: one block of 128 cells
    GlyphCache::new(Vector2 { x: 1, y: 1 }, Vector2 { x: 16, y: 8 }).0
}

#[test]
fn ascii_glyphs_take_the_first_cells() {
    let (cache, draws) = GlyphCache::new(Vector2 { x: 1, y: 1 }, Vector2 { x: 32, y: 16 });
    assert_eq!(draws.len(), 95);
    assert_eq!(draws[0], TileDraw { atlas_index: index(0, 0, 0, 0), character: ' ' });
    assert_eq!(draws[33], TileDraw { atlas_index: index(0, 0, 1, 2), character: 'A' });
    assert_eq!(draws[94], TileDraw { atlas_index: index(0, 0, 14, 5), character: '~' });
    assert_eq!(cache.get_ascii_atlas_index('A'), index(0, 0, 1, 2));
    assert_eq!(cache.get_ascii_atlas_index('~'), index(0, 0, 14, 5));
    assert_eq!(cache.get_glyph_atlas().get_total_blocks(), Vector2 { x: 1, y: 1 });
}

#[test]
fn other_glyphs_take_free_cells_then_hit() {
    let mut cache = small_cache();
    assert_eq!(cache.locate('A', true, 1), (index(0, 0, 1, 2), None));
    assert_eq!(cache.locate('é', true, 1), (index(0, 0, 15, 5), Some(TileDraw { atlas_index: index(0, 0, 15, 5), character: 'é' })));
    assert_eq!(cache.locate('ß', true, 1), (index(0, 0, 0, 6), Some(TileDraw { atlas_index: index(0, 0, 0, 6), character: 'ß' })));
    assert_eq!(cache.locate('é', true, 2), (index(0, 0, 15, 5), None));
    assert_eq!(cache.locate('\u{2603}', false, 2).1, Some(TileDraw { atlas_index: index(0, 0, 1, 6), character: '\0' }));
    assert_eq!(cache.locate('\u{2604}', false, 2), (index(0, 0, 1, 6), None));
}

#[test]
fn full_atlas_recycles_oldest() {
    let mut cache = small_cache();
    for i in 0..33u32 {
        let c = char::from_u32(0x4e00 + i).unwrap();
        assert!(cache.locate(c, true, 1).1.is_some());
    }
    // every cell is used: the first character held gives up its cell
    let (cell, draw) = cache.locate('\u{9000}', true, 2);
    assert_eq!(cell, index(0, 0, 15, 5));
    assert_eq!(draw, Some(TileDraw { atlas_index: index(0, 0, 15, 5), character: '\u{9000}' }));
    assert_eq!(cache.locate('\u{4e00}', true, 3).0, index(0, 0, 0, 6));
}

#[test]
fn repeat_tile_lookup_hits() {
    let mut cache = small_cache();
    for c in ['ω', 'ж', 'A'] {
        let (a, _) = cache.locate(c, true, 1);
        let (b, d) = cache.locate(c, true, 2);
        assert_eq!(a, b);
        assert_eq!(d, None);
    }
}

#[test]
fn cell_records_hold_positions_and_colours() {
    let mut cache = small_cache();
    let pen = Pen {
        foreground_colour: Rgb8 { r: 1, g: 2, b: 3 },
        background_colour: Rgb8 { r: 4, g: 5, b: 6 },
        style_flags: StyleFlags { bits: 0 },
    };
    let cells = vec![Cell { character: 'A', pen }, Cell { character: 'é', pen }];
    let mut grid: Vec<CellData> = Vec::new();
    let draws = update_grid_from_terminal(&mut grid, &mut cache, &cells, &[true, true], 1);
    assert_eq!(draws, vec![TileDraw { atlas_index: index(0, 0, 15, 5), character: 'é' }]);
    assert_eq!(grid.len(), 2);
    assert_eq!(grid[0].atlas_index, AtlasPosition { x: 1, y: 2 });
    assert_eq!(grid[1].atlas_index, AtlasPosition { x: 15, y: 5 });
    assert_eq!(grid[0].colour_foreground, Rgba8 { r: 1, g: 2, b: 3, a: 255 });
    assert_eq!(grid[1].colour_background, Rgba8 { r: 4, g: 5, b: 6, a: 255 });
    assert_eq!(grid[0].style_flags, 0);
}

#[test]
fn written_glyph_marks_block() {
    let mut cache = small_cache();
    cache.clear_modified_count();
    assert!(cache.get_glyph_atlas().get_modified_blocks().is_empty());
    let (cell, _) = cache.locate('é', true, 1);
    cache.write_glyph(cell, &[200]);
    assert_eq!(cache.get_glyph_atlas().get_modified_blocks(), vec![Vector2 { x: 0, y: 0 }]);
    let block = cache.get_glyph_atlas().get_block(Vector2 { x: 0, y: 0 });
    assert_eq!(block[5 * 16 + 15], 200);
}
