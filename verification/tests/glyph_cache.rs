use wgpu_terminal::glyph_cache::{GlyphCache, GlyphCacheLocation, GlyphMetrics};
use wgpu_terminal::primitives::Vector2;

fn loc(page_index: usize, x: usize, y: usize) -> GlyphCacheLocation {
    GlyphCacheLocation { page_index, glyph_position: Vector2 { x, y } }
}

#[test]
fn ascii_glyphs_have_fixed_cells() {
    let mut cache = GlyphCache::new(Vector2 { x: 8, y: 16 }, 12);
    assert_eq!(cache.get_glyph_size(), Vector2 { x: 8, y: 16 });
    assert_eq!(cache.get_pages().len(), 1);
    assert_eq!(cache.get_ascii_glyph_location(' '), loc(0, 1, 0));
    assert_eq!(cache.get_ascii_glyph_location('A'), loc(0, 4, 3));
    assert_eq!(cache.get_ascii_glyph_location('~'), loc(0, 5, 9));
    assert_eq!(cache.locate('A', true, 1), (loc(0, 4, 3), None));
    assert_eq!(cache.get_pages()[0].get_atlas().get_grid_size(), Vector2 { x: 10, y: 10 });
}

#[test]
fn other_glyphs_are_allocated_then_hit() {
    let mut cache = GlyphCache::new(Vector2 { x: 8, y: 16 }, 12);
    assert_eq!(cache.locate('é', true, 1), (loc(1, 0, 0), Some('é')));
    assert_eq!(cache.get_pages().len(), 2);
    assert_eq!(cache.get_pages()[1].get_atlas().get_grid_size(), Vector2 { x: 64, y: 32 });
    assert_eq!(cache.locate('ß', true, 1), (loc(1, 1, 0), Some('ß')));
    assert_eq!(cache.locate('é', true, 2), (loc(1, 0, 0), None));
    // a character the font lacks stands as the character zero
    assert_eq!(cache.locate('\u{1234}', false, 2), (loc(1, 2, 0), Some('\0')));
    assert_eq!(cache.locate('\u{5678}', false, 2), (loc(1, 2, 0), None));
}

#[test]
fn full_cache_recycles_least_recently_used() {
    // glyphs of 256 by 256 texels: two by two cells on each of seven pages
    let mut cache = GlyphCache::new(Vector2 { x: 256, y: 256 }, 200);
    let mut first = Vec::new();
    for i in 0..28u32 {
        let c = char::from_u32(0x4e00 + i).unwrap();
        let (l, draw) = cache.locate(c, true, 1);
        assert_eq!(draw, Some(c));
        first.push(l);
    }
    assert_eq!(first[0], loc(1, 0, 0));
    assert_eq!(first[3], loc(1, 1, 1));
    assert_eq!(first[4], loc(2, 0, 0));
    assert_eq!(first[27], loc(7, 1, 1));
    assert_eq!(cache.get_pages().len(), 8);
    // a hit only stamps the frame: the first character held is still the
    // first one recycled
    assert_eq!(cache.locate('\u{4e00}', true, 2), (loc(1, 0, 0), None));
    assert_eq!(cache.locate('\u{9000}', true, 2), (loc(1, 0, 0), Some('\u{9000}')));
    assert_eq!(cache.locate('\u{4e00}', true, 3), (loc(1, 1, 0), Some('\u{4e00}')));
    assert_eq!(cache.locate('\u{4e01}', true, 3), (loc(1, 0, 1), Some('\u{4e01}')));
    assert_eq!(cache.locate('\u{9000}', true, 4), (loc(1, 0, 0), None));
    assert_eq!(cache.get_pages().len(), 8);
}

#[test]
fn repeat_lookup_hits() {
    let mut cache = GlyphCache::new(Vector2 { x: 8, y: 8 }, 6);
    for c in ['ω', 'ж', 'A', '\u{2603}'] {
        let (l1, _) = cache.locate(c, true, 1);
        let (l2, d2) = cache.locate(c, true, 2);
        assert_eq!(l1, l2);
        assert_eq!(d2, None);
    }
}

#[test]
fn written_glyph_counts_a_change() {
    let mut cache = GlyphCache::new(Vector2 { x: 4, y: 4 }, 3);
    let (l, _) = cache.locate('λ', true, 1);
    assert_eq!(cache.get_pages()[1].get_total_changes(), 0);
    let metrics = GlyphMetrics { xmin: 1, ymin: 0, width: 2, height: 2 };
    cache.write_glyph(l, metrics, &[1, 2, 3, 4]);
    assert_eq!(cache.get_pages()[1].get_total_changes(), 1);
    let view = cache.get_pages()[1].get_atlas().get_texture_view();
    let width = cache.get_pages()[1].get_atlas().get_texture_size().x;
    // baseline 3, height 2, ymin 0: rows 1 and 2 of the cell, from column 1
    assert_eq!(view[width + 1].data, 1);
    assert_eq!(view[width + 2].data, 2);
    assert_eq!(view[2 * width + 1].data, 3);
    assert_eq!(view[2 * width + 2].data, 4);
    assert_eq!(view[0].data, 0);
    cache.clear_total_changes(1);
    assert_eq!(cache.get_pages()[1].get_total_changes(), 0);
}

#[test]
fn glyph_sticking_out_is_cut_to_its_cell() {
    let mut cache = GlyphCache::new(Vector2 { x: 2, y: 2 }, 1);
    let metrics = GlyphMetrics { xmin: -1, ymin: -3, width: 3, height: 1 };
    let l = cache.get_ascii_glyph_location('#');
    cache.write_glyph(l, metrics, &[9, 8, 7]);
    let atlas = cache.get_pages()[0].get_atlas();
    let view = atlas.get_texture_view();
    let width = atlas.get_texture_size().x;
    let x0 = l.glyph_position.x * 2;
    let y0 = l.glyph_position.y * 2;
    // y = 1 - (-3) - 1 = 3 is pushed back to the bottom edge: nothing fits below it
    for dy in 0..2 {
        for dx in 0..2 {
            assert_eq!(view[(y0 + dy) * width + x0 + dx].data, 0);
        }
    }
    assert_eq!(cache.get_pages()[0].get_total_changes(), 1);
}
