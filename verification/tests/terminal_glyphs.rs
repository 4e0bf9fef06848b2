use wgpu_terminal::glyph_cache::{GlyphCache, GlyphCacheLocation};
use wgpu_terminal::glyph_grid::GlyphGrid;
use wgpu_terminal::primitives::{Cell, Pen, Rgb8, StyleFlags, Vector2};
use wgpu_terminal::terminal_glyphs::{update_grid_from_terminal, GlyphDraw};

#[test]
fn grid_records_show_cells() {
    let mut cache = GlyphCache::new(Vector2 { x: 8, y: 16 }, 12);
    let mut grid = GlyphGrid::new(Vector2 { x: 1, y: 1 });
    let pen = Pen {
        foreground_colour: Rgb8 { r: 0x10, g: 0x20, b: 0x30 },
        background_colour: Rgb8 { r: 0x40, g: 0x50, b: 0x60 },
        style_flags: StyleFlags { bits: 0 },
    };
    let cells = vec![
        Cell { character: 'A', pen },
        Cell { character: 'é', pen },
        Cell { character: 'é', pen },
        Cell { character: '\u{1234}', pen },
    ];
    let draws = update_grid_from_terminal(&mut grid, &mut cache, Vector2 { x: 2, y: 2 }, &cells, &[true, true, true, false], 5);
    assert_eq!(draws, vec![
        GlyphDraw { location: GlyphCacheLocation { page_index: 1, glyph_position: Vector2 { x: 0, y: 0 } }, character: 'é' },
        GlyphDraw { location: GlyphCacheLocation { page_index: 1, glyph_position: Vector2 { x: 1, y: 0 } }, character: '\0' },
    ]);
    assert_eq!(grid.get_size(), Vector2 { x: 2, y: 2 });
    let data = grid.get_data();
    assert_eq!(data[0].data[0], 0 | (4 << 8) | (3 << 20));
    assert_eq!(data[1].data[0], 1);
    assert_eq!(data[2].data[0], 1);
    assert_eq!(data[3].data[0], 1 | (1 << 8));
    assert_eq!(data[0].data[1], 0xff302010);
    assert_eq!(data[3].data[2], 0xff605040);
}
