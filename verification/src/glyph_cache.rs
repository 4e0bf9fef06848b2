//! Where each character's glyph image lives in a set of atlas pages: the
//! printable ASCII characters on a fixed first page, every other character
//! on later pages, allocated as needed up to a limit and then recycled,
//! least recently used first.
use vstd::prelude::*;
use std::collections::HashMap;
use crate::glyph_atlas::{BitmapPlacement, GlyphAtlas, GlyphType, glyph_drawn};
use crate::lru_list::{LruList, move_to_front};
use crate::primitives::{Cell, Vector2};

verus! {

broadcast use vstd::std_specs::hash::group_hash_axioms;

/// The first printable ASCII character.
pub const ASCII_GLYPH_START: char = ' ';
/// The last printable ASCII character.
pub const ASCII_GLYPH_END: char = '~';
/// Cells of the ASCII page: one per printable character, and an empty one at (0, 0).
pub const ASCII_TOTAL_GLYPHS: usize = 96;
/// The width and height, in texels, that a page of other characters may take.
pub const MAX_TEXTURE_WIDTH: usize = 512;
/// The most pages the cache holds, the ASCII page included.
pub const MAX_PAGES: usize = 8;

/// A glyph cell: the page, and the column and row on it.
#[derive(Clone, Copy, Debug, PartialEq, Eq, Structural)]
pub struct GlyphCacheLocation {
    pub page_index: usize,
    pub glyph_position: Vector2,
}

/// The integer measures of a rasterised glyph: where its bitmap starts
/// relative to the pen position, and its size in texels.
#[derive(Clone, Copy, Debug, PartialEq, Eq, Structural)]
pub struct GlyphMetrics {
    pub xmin: i32,
    pub ymin: i32,
    pub width: usize,
    pub height: usize,
}

/// A character held by the cache, where its glyph is, and the frame that last used it.
#[derive(Clone, Copy, Debug, PartialEq, Eq, Structural)]
pub struct CacheEntry {
    pub character: char,
    pub location: GlyphCacheLocation,
    pub time_id: usize,
}

/// An atlas page and how many glyphs were drawn into it since it was last uploaded.
pub struct Page {
    atlas: GlyphAtlas,
    total_changes: usize,
}

impl Page {
    pub closed spec fn atlas_spec(&self) -> GlyphAtlas {
        self.atlas
    }

    pub closed spec fn changes(&self) -> nat {
        self.total_changes as nat
    }

    /// The atlas of the page.
    pub fn get_atlas(&self) -> (r: &GlyphAtlas)
        ensures
            *r == self.atlas_spec(),
    {
        &self.atlas
    }

    /// How many glyphs were drawn since the count was last cleared.
    pub fn get_total_changes(&self) -> (r: usize)
        ensures
            r == self.changes(),
    {
        self.total_changes
    }

    /// Clears the count of drawn glyphs.
    pub fn clear_total_changes(&mut self)
        ensures
            final(self).changes() == 0,
            final(self).atlas_spec() == old(self).atlas_spec(),
    {
        self.total_changes = 0;
    }
}

/// Whether `c` is a printable ASCII character, which has a fixed cell on page 0.
pub open spec fn is_ascii_glyph(c: char) -> bool {
    ' ' <= c <= '~'
}

/// The smallest number whose square reaches `n`.
pub open spec fn is_ceil_sqrt(r: nat, n: nat) -> bool {
    &&& r * r >= n
    &&& r == 0 || (r - 1) * (r - 1) < n
}

/// The grid of the ASCII page: as many columns as the ceiling of the
/// square root of its cell count, and the rows needed for them all.
pub open spec fn ascii_grid_size() -> Vector2 {
    Vector2 { x: 10, y: 10 }
}

/// The cell of the printable ASCII character `c`; cell 0 stays empty.
pub open spec fn ascii_location(c: char) -> GlyphCacheLocation {
    let index = (c as u32 - ' ' as u32) + 1;
    GlyphCacheLocation {
        page_index: 0,
        glyph_position: Vector2 { x: (index % 10) as usize, y: (index / 10) as usize },
    }
}

/// The grid of a page for other characters: as many cells as fit in a
/// square of `MAX_TEXTURE_WIDTH` texels.
pub open spec fn unicode_grid_size(glyph_size: Vector2) -> Vector2 {
    Vector2 { x: (MAX_TEXTURE_WIDTH / glyph_size.x) as usize, y: (MAX_TEXTURE_WIDTH / glyph_size.y) as usize }
}

/// Where a rasterised glyph goes in a cell of `glyph_size` texels whose
/// baseline is `baseline` texels from the top: it hangs from the baseline by
/// its measures, pushed back inside the cell and cut to it where it sticks out.
pub open spec fn glyph_placement(baseline: int, glyph_size: Vector2, metrics: GlyphMetrics) -> BitmapPlacement {
    let y = baseline - metrics.ymin - metrics.height;
    let x = metrics.xmin as int;
    let y_offset = if y < 0 { 0 } else if y > glyph_size.y { glyph_size.y as int } else { y };
    let x_offset = if x < 0 { 0 } else if x > glyph_size.x { glyph_size.x as int } else { x };
    let height = if metrics.height <= glyph_size.y - y_offset { metrics.height as int } else { glyph_size.y - y_offset };
    let width = if metrics.width <= glyph_size.x - x_offset { metrics.width as int } else { glyph_size.x - x_offset };
    BitmapPlacement {
        offset: Vector2 { x: x_offset as usize, y: y_offset as usize },
        size: Vector2 { x: width as usize, y: height as usize },
    }
}

/// The smallest number whose square reaches `n`.
fn ceil_sqrt(n: usize) -> (r: usize)
    requires
        n <= 0x1_0000,
    ensures
        is_ceil_sqrt(r as nat, n as nat),
{
    let mut r: usize = 0;
    while r * r < n
        invariant
            r <= 0x100,
            r * r <= 0x1_0000,
            r == 0 || (r - 1) * (r - 1) < n,
            n <= 0x1_0000,
        decreases 0x100 - r,
    {
        proof {
            assert(r < 0x100) by (nonlinear_arith) requires r * r < n, n <= 0x1_0000, r <= 0x100;
            assert((r + 1) * (r + 1) <= 0x1_0000) by (nonlinear_arith) requires r < 0x100;
        }
        r = r + 1;
    }
    r
}

/// A page as plain values.
#[verifier::ext_equal]
pub struct PageModel {
    pub texture: Seq<Seq<GlyphType>>,
    pub grid_size: Vector2,
    pub changes: nat,
}

/// A blank page of `grid_size` cells of `glyph_size` texels, with no change counted.
pub open spec fn blank_page(glyph_size: Vector2, grid_size: Vector2) -> PageModel {
    PageModel {
        texture: Seq::new((grid_size.y * glyph_size.y) as nat, |y: int|
            Seq::new((grid_size.x * glyph_size.x) as nat, |x: int| GlyphType { data: 0 })),
        grid_size,
        changes: 0,
    }
}

/// The cache as plain values.
#[verifier::ext_equal]
pub struct GlyphCacheModel {
    pub glyph_size: Vector2,
    pub glyph_baseline: usize,
    pub pages: Seq<PageModel>,
    /// The next unused cell.
    pub free: GlyphCacheLocation,
    /// The characters held, by slot.
    pub entries: Seq<CacheEntry>,
    /// The slots from most to least recently used.
    pub order: Seq<usize>,
    /// The slot of each character held.
    pub lookup: Map<u32, usize>,
}

/// The cell after `loc` in row-after-row order, moving to the next page after the last cell.
pub open spec fn next_free(pages: Seq<PageModel>, loc: GlyphCacheLocation) -> GlyphCacheLocation {
    let grid = pages[loc.page_index as int].grid_size;
    let x = loc.glyph_position.x + 1;
    let (x1, y1) = if x >= grid.x { (0, loc.glyph_position.y + 1) } else { (x as int, loc.glyph_position.y as int) };
    if y1 >= grid.y {
        GlyphCacheLocation { page_index: (loc.page_index + 1) as usize, glyph_position: Vector2 { x: 0, y: 0 } }
    } else {
        GlyphCacheLocation { page_index: loc.page_index, glyph_position: Vector2 { x: x1 as usize, y: y1 as usize } }
    }
}

impl GlyphCacheModel {
    /// The cell of `c`, what the cache is after it was asked, and the
    /// character whose glyph is now to be drawn into the cell, if any.
    /// Printable ASCII characters have fixed cells. A character the font
    /// lacks stands as the character zero. A character held has its frame
    /// updated. Another one takes the next unused cell, a new page being
    /// added where the pages are used up and the limit allows; otherwise it
    /// takes the cell of the least recently used character.
    pub open spec fn located(self, c: char, has_glyph: bool, time_id: usize) -> (GlyphCacheModel, GlyphCacheLocation, Option<char>) {
        if is_ascii_glyph(c) {
            (self, ascii_location(c), None)
        } else {
            let c2 = if has_glyph { c } else { '\0' };
            let key = c2 as u32;
            if self.lookup.contains_key(key) {
                let i = self.lookup[key];
                let e = self.entries[i as int];
                (GlyphCacheModel { entries: self.entries.update(i as int, CacheEntry { time_id, ..e }), ..self }, e.location, None)
            } else {
                let loc = self.free;
                let needs_page = loc.page_index >= self.pages.len();
                let full = needs_page && self.pages.len() >= MAX_PAGES;
                let pages = if needs_page && !full {
                    self.pages.push(blank_page(self.glyph_size, unicode_grid_size(self.glyph_size)))
                } else {
                    self.pages
                };
                if !full {
                    let n = self.entries.len();
                    (GlyphCacheModel {
                        pages,
                        free: next_free(pages, loc),
                        entries: self.entries.push(CacheEntry { character: c2, location: loc, time_id }),
                        order: seq![n as usize] + self.order,
                        lookup: self.lookup.insert(key, n as usize),
                        ..self
                    }, loc, Some(c2))
                } else {
                    let i = self.order.last();
                    let e = self.entries[i as int];
                    (GlyphCacheModel {
                        entries: self.entries.update(i as int, CacheEntry { character: c2, location: e.location, time_id }),
                        order: move_to_front(self.order, i),
                        lookup: self.lookup.remove(e.character as u32).insert(key, i),
                        ..self
                    }, e.location, Some(c2))
                }
            }
        }
    }
}

#[verifier::external_type_specification]
#[verifier::external_body]
pub struct ExFont(fontdue::Font);

/// `fontdue::Font::has_glyph`: whether the font maps `c` to a glyph of its
/// own rather than to its default glyph. Nothing is claimed of the answer,
/// which comes from the font's tables.
#[verifier::external_body]
pub(crate) fn font_has_glyph(font: &fontdue::Font, c: char) -> (r: bool) {
    font.has_glyph(c)
}

/// For each character of `cells`, whether `font` has a glyph for it.
pub fn glyph_presence(font: &fontdue::Font, cells: &[Cell]) -> (r: Vec<bool>)
    ensures
        r@.len() == cells@.len(),
{
    let mut out: Vec<bool> = Vec::with_capacity(cells.len());
    let mut i: usize = 0;
    while i < cells.len()
        invariant
            i <= cells@.len(),
            out@.len() == i,
        decreases cells@.len() - i,
    {
        out.push(font_has_glyph(font, cells[i].character));
        i = i + 1;
    }
    out
}

pub struct GlyphCache {
    glyph_baseline: usize,
    glyph_size: Vector2,
    pages: Vec<Page>,
    unicode_page_grid_size: Vector2,
    max_pages: usize,
    free_glyph_location: GlyphCacheLocation,
    lru_node_lookup: HashMap<u32, usize>,
    lru_node_list: LruList<CacheEntry>,
}

/// A page as plain values.
pub open spec fn page_model(p: Page) -> PageModel {
    PageModel { texture: p.atlas_spec().texture(), grid_size: p.atlas_spec().spec_grid_size(), changes: p.changes() }
}

/// The first cell for characters outside ASCII.
pub open spec fn first_free() -> GlyphCacheLocation {
    GlyphCacheLocation { page_index: 1, glyph_position: Vector2 { x: 0, y: 0 } }
}

impl GlyphCache {
    pub closed spec fn model(&self) -> GlyphCacheModel {
        GlyphCacheModel {
            glyph_size: self.glyph_size,
            glyph_baseline: self.glyph_baseline,
            pages: Seq::new(self.pages@.len(), |k: int| page_model(self.pages@[k])),
            free: self.free_glyph_location,
            entries: self.lru_node_list.items(),
            order: self.lru_node_list.order(),
            lookup: self.lru_node_lookup@,
        }
    }

    pub closed spec fn wf(&self) -> bool {
        let m = self.model();
        let pages = self.pages@;
        &&& 1 <= self.glyph_size.x <= MAX_TEXTURE_WIDTH
        &&& 1 <= self.glyph_size.y <= MAX_TEXTURE_WIDTH
        &&& self.max_pages == MAX_PAGES
        &&& self.unicode_page_grid_size == unicode_grid_size(self.glyph_size)
        &&& self.unicode_page_grid_size.x >= 1
        &&& self.unicode_page_grid_size.y >= 1
        &&& 1 <= pages.len() <= MAX_PAGES
        &&& forall|k: int| 0 <= k < pages.len() ==> {
            &&& (#[trigger] pages[k]).atlas_spec().wf()
            &&& pages[k].atlas_spec().spec_glyph_size() == self.glyph_size
            &&& pages[k].atlas_spec().spec_grid_size() == (if k == 0 { ascii_grid_size() } else { self.unicode_page_grid_size })
        }
        &&& 1 <= m.free.page_index <= pages.len()
        &&& m.free.page_index < pages.len() ==> {
            &&& m.free.glyph_position.x < self.unicode_page_grid_size.x
            &&& m.free.glyph_position.y < self.unicode_page_grid_size.y
        }
        &&& m.free.page_index == pages.len() ==> m.free.glyph_position == (Vector2 { x: 0, y: 0 })
        &&& self.lru_node_list.wf()
        &&& forall|i: int| 0 <= i < m.entries.len() ==> {
            &&& m.lookup.contains_key((#[trigger] m.entries[i]).character as u32)
            &&& m.lookup[m.entries[i].character as u32] == i
            &&& 1 <= m.entries[i].location.page_index < pages.len()
            &&& m.entries[i].location.glyph_position.x < self.unicode_page_grid_size.x
            &&& m.entries[i].location.glyph_position.y < self.unicode_page_grid_size.y
        }
        &&& forall|k: u32| #[trigger] m.lookup.contains_key(k) ==> {
            &&& m.lookup[k] < m.entries.len()
            &&& m.entries[m.lookup[k] as int].character as u32 == k
        }
        &&& m.free != first_free() ==> m.entries.len() > 0
    }
}

impl GlyphCache {
    /// A cache for glyphs of `glyph_size` texels with the baseline
    /// `glyph_baseline` texels from the top: a blank ASCII page, no other
    /// page, no character held. The ASCII glyphs are drawn into their cells
    /// afterwards, with `write_glyph`.
    pub fn new(glyph_size: Vector2, glyph_baseline: usize) -> (r: Self)
        requires
            1 <= glyph_size.x <= MAX_TEXTURE_WIDTH,
            1 <= glyph_size.y <= MAX_TEXTURE_WIDTH,
        ensures
            r.wf(),
            r.model() == (GlyphCacheModel {
                glyph_size,
                glyph_baseline,
                pages: seq![blank_page(glyph_size, ascii_grid_size())],
                free: first_free(),
                entries: Seq::empty(),
                order: Seq::empty(),
                lookup: Map::empty(),
            }),
    {
        let columns = ceil_sqrt(ASCII_TOTAL_GLYPHS);
        proof {
            assert(columns == 10) by (nonlinear_arith)
                requires columns * columns >= 96, columns == 0 || (columns - 1) * (columns - 1) < 96;
        }
        let rows = (ASCII_TOTAL_GLYPHS + columns - 1) / columns;
        let ascii_grid = Vector2 { x: columns, y: rows };
        proof {
            assert(ascii_grid.x * glyph_size.x <= usize::MAX) by (nonlinear_arith) requires ascii_grid.x == 10, glyph_size.x <= 512;
            assert(ascii_grid.y * glyph_size.y <= usize::MAX) by (nonlinear_arith) requires ascii_grid.y == 10, glyph_size.y <= 512;
        }
        let mut pages: Vec<Page> = Vec::new();
        pages.push(Page { atlas: GlyphAtlas::new(glyph_size, ascii_grid), total_changes: 0 });
        let unicode_page_grid_size = Vector2 { x: MAX_TEXTURE_WIDTH / glyph_size.x, y: MAX_TEXTURE_WIDTH / glyph_size.y };
        proof {
            assert(MAX_TEXTURE_WIDTH / glyph_size.x >= 1) by (nonlinear_arith) requires 1 <= glyph_size.x <= MAX_TEXTURE_WIDTH;
            assert(MAX_TEXTURE_WIDTH / glyph_size.y >= 1) by (nonlinear_arith) requires 1 <= glyph_size.y <= MAX_TEXTURE_WIDTH;
        }
        let r = GlyphCache {
            glyph_baseline,
            glyph_size,
            pages,
            unicode_page_grid_size,
            max_pages: MAX_PAGES,
            free_glyph_location: GlyphCacheLocation { page_index: 1, glyph_position: Vector2 { x: 0, y: 0 } },
            lru_node_lookup: HashMap::new(),
            lru_node_list: LruList::new(),
        };
        proof {
            assert(r.model().pages =~= seq![blank_page(glyph_size, ascii_grid_size())]);
            assert(r.model() =~= (GlyphCacheModel {
                glyph_size,
                glyph_baseline,
                pages: seq![blank_page(glyph_size, ascii_grid_size())],
                free: first_free(),
                entries: Seq::empty(),
                order: Seq::empty(),
                lookup: Map::empty(),
            }));
        }
        r
    }

    /// The size of a glyph cell in texels.
    pub fn get_glyph_size(&self) -> (r: Vector2)
        ensures
            r == self.model().glyph_size,
    {
        self.glyph_size
    }

    /// The pages.
    pub fn get_pages(&self) -> (r: &[Page])
        ensures
            r@.len() == self.model().pages.len(),
            forall|k: int| 0 <= k < r@.len() ==> page_model(#[trigger] r@[k]) == self.model().pages[k],
    {
        self.pages.as_slice()
    }

    /// Clears the count of glyphs drawn into page `page_index`.
    pub fn clear_total_changes(&mut self, page_index: usize)
        requires
            old(self).wf(),
            page_index < old(self).model().pages.len(),
        ensures
            final(self).wf(),
            final(self).model() == (GlyphCacheModel {
                pages: old(self).model().pages.update(page_index as int,
                    PageModel { changes: 0, ..old(self).model().pages[page_index as int] }),
                ..old(self).model()
            }),
    {
        let ghost m0 = self.model();
        self.pages[page_index].clear_total_changes();
        proof {
            assert(self.model().pages =~= m0.pages.update(page_index as int, PageModel { changes: 0, ..m0.pages[page_index as int] }));
            assert(self.model() =~= GlyphCacheModel {
                pages: m0.pages.update(page_index as int, PageModel { changes: 0, ..m0.pages[page_index as int] }),
                ..m0
            });
        }
    }

    /// The fixed cell of the printable ASCII character `c`.
    pub fn get_ascii_glyph_location(&self, c: char) -> (r: GlyphCacheLocation)
        requires
            self.wf(),
            is_ascii_glyph(c),
        ensures
            r == ascii_location(c),
            r.glyph_position.x < ascii_grid_size().x,
            r.glyph_position.y < ascii_grid_size().y,
    {
        let index = (c as u32 - ' ' as u32) + 1;
        GlyphCacheLocation { page_index: 0, glyph_position: Vector2 { x: (index % 10) as usize, y: (index / 10) as usize } }
    }

    /// Draws a rasterised glyph, `bitmap` with the measures `metrics`, into
    /// the cell `location` (see `glyph_placement`) and counts the change.
    pub fn write_glyph(&mut self, location: GlyphCacheLocation, metrics: GlyphMetrics, bitmap: &[u8])
        requires
            old(self).wf(),
            location.page_index < old(self).model().pages.len(),
            location.glyph_position.x < old(self).model().pages[location.page_index as int].grid_size.x,
            location.glyph_position.y < old(self).model().pages[location.page_index as int].grid_size.y,
            metrics.width * metrics.height <= bitmap@.len(),
            old(self).model().glyph_baseline <= i32::MAX,
            metrics.height <= i32::MAX,
            i32::MIN <= old(self).model().glyph_baseline - metrics.ymin <= i32::MAX,
            i32::MIN <= old(self).model().glyph_baseline - metrics.ymin - metrics.height <= i32::MAX,
        ensures
            final(self).wf(),
            ({
                let m0 = old(self).model();
                let page = m0.pages[location.page_index as int];
                final(self).model() == (GlyphCacheModel {
                    pages: m0.pages.update(location.page_index as int, PageModel {
                        texture: glyph_drawn(page.texture, m0.glyph_size, location.glyph_position, bitmap@,
                            glyph_placement(m0.glyph_baseline as int, m0.glyph_size, metrics)),
                        changes: if page.changes < usize::MAX { page.changes + 1 } else { page.changes },
                        ..page
                    }),
                    ..m0
                })
            }),
    {
        let ghost m0 = self.model();
        let size = self.glyph_size;
        let y = self.glyph_baseline as i64 - metrics.ymin as i64 - metrics.height as i64;
        let x = metrics.xmin as i64;
        let gy = size.y as i64;
        let gx = size.x as i64;
        let y_offset: usize = if y < 0 { 0 } else if y > gy { size.y } else { y as usize };
        let x_offset: usize = if x < 0 { 0 } else if x > gx { size.x } else { x as usize };
        let height = if metrics.height <= size.y - y_offset { metrics.height } else { size.y - y_offset };
        let width = if metrics.width <= size.x - x_offset { metrics.width } else { size.x - x_offset };
        let placement = BitmapPlacement {
            offset: Vector2 { x: x_offset, y: y_offset },
            size: Vector2 { x: width, y: height },
        };
        proof {
            assert(placement == glyph_placement(m0.glyph_baseline as int, m0.glyph_size, metrics));
            assert(width * height <= metrics.width * metrics.height) by (nonlinear_arith)
                requires width <= metrics.width, height <= metrics.height;
            let k = location.page_index as int;
            assert(self.pages@[k].atlas_spec().wf());
        }
        let page = &mut self.pages[location.page_index];
        page.atlas.write_glyph_bitmap(location.glyph_position, bitmap, placement);
        page.total_changes = page.total_changes.saturating_add(1);
        proof {
            let k = location.page_index as int;
            let p0 = m0.pages[k];
            assert(self.model().pages =~= m0.pages.update(k, PageModel {
                texture: glyph_drawn(p0.texture, m0.glyph_size, location.glyph_position, bitmap@, placement),
                changes: if p0.changes < usize::MAX { p0.changes + 1 } else { p0.changes },
                ..p0
            }));
        }
    }
}

impl GlyphCache {
    /// The cell after `location` (see `next_free`).
    fn get_next_free_location(&self, location: GlyphCacheLocation) -> (r: GlyphCacheLocation)
        requires
            self.wf(),
            1 <= location.page_index < self.model().pages.len(),
            location.glyph_position.x < self.unicode_page_grid_size.x,
            location.glyph_position.y < self.unicode_page_grid_size.y,
        ensures
            r == next_free(self.model().pages, location),
    {
        let grid_size = self.pages[location.page_index].atlas.get_grid_size();
        let mut x = location.glyph_position.x + 1;
        let mut y = location.glyph_position.y;
        if x >= grid_size.x {
            x = 0;
            y = y + 1;
        }
        if y >= grid_size.y {
            GlyphCacheLocation { page_index: location.page_index + 1, glyph_position: Vector2 { x: 0, y: 0 } }
        } else {
            GlyphCacheLocation { page_index: location.page_index, glyph_position: Vector2 { x, y } }
        }
    }

    /// Adds a blank page for characters outside ASCII, unless the limit is reached.
    fn try_allocate_unicode_page(&mut self) -> (r: bool)
        requires
            old(self).wf(),
            old(self).model().free.page_index == old(self).model().pages.len(),
        ensures
            r == (old(self).model().pages.len() < MAX_PAGES),
            final(self).model() == (GlyphCacheModel {
                pages: if r {
                    old(self).model().pages.push(blank_page(old(self).model().glyph_size, unicode_grid_size(old(self).model().glyph_size)))
                } else {
                    old(self).model().pages
                },
                ..old(self).model()
            }),
            final(self).glyph_size == old(self).glyph_size,
            final(self).unicode_page_grid_size == old(self).unicode_page_grid_size,
            final(self).max_pages == old(self).max_pages,
            final(self).lru_node_list == old(self).lru_node_list,
            final(self).lru_node_lookup == old(self).lru_node_lookup,
            forall|k: int| 0 <= k < old(self).pages@.len() ==> #[trigger] final(self).pages@[k] == old(self).pages@[k],
            final(self).pages@.len() == old(self).pages@.len() + (if r { 1int } else { 0int }),
            r ==> final(self).pages@.last().atlas_spec().wf(),
            r ==> final(self).pages@.last().atlas_spec().spec_glyph_size() == old(self).glyph_size,
            r ==> final(self).pages@.last().atlas_spec().spec_grid_size() == old(self).unicode_page_grid_size,
    {
        let ghost m0 = self.model();
        if self.pages.len() == self.max_pages {
            return false;
        }
        let grid = self.unicode_page_grid_size;
        let glyph = self.glyph_size;
        proof {
            assert(grid.x * glyph.x <= MAX_TEXTURE_WIDTH) by (nonlinear_arith)
                requires grid.x == MAX_TEXTURE_WIDTH / glyph.x, glyph.x >= 1;
            assert(grid.y * glyph.y <= MAX_TEXTURE_WIDTH) by (nonlinear_arith)
                requires grid.y == MAX_TEXTURE_WIDTH / glyph.y, glyph.y >= 1;
        }
        self.pages.push(Page { atlas: GlyphAtlas::new(glyph, grid), total_changes: 0 });
        proof {
            let b = blank_page(m0.glyph_size, unicode_grid_size(m0.glyph_size));
            assert(page_model(self.pages@.last()) =~= b);
            assert(self.model().pages =~= m0.pages.push(b));
            assert(self.model() =~= GlyphCacheModel { pages: m0.pages.push(b), ..m0 });
        }
        true
    }

    /// Every cell the cache hands out lies on one of its at most `MAX_PAGES`
    /// pages, within a square of `MAX_TEXTURE_WIDTH` cells.
    proof fn lemma_located_in_bounds(&self, c: char, has_glyph: bool, time_id: usize)
        requires
            self.wf(),
        ensures
            ({
                let l = self.model().located(c, has_glyph, time_id).1;
                &&& l.page_index < MAX_PAGES
                &&& l.glyph_position.x < MAX_TEXTURE_WIDTH
                &&& l.glyph_position.y < MAX_TEXTURE_WIDTH
            }),
    {
        let m = self.model();
        self.lru_node_list.lemma_order_is_permutation();
        let g = self.glyph_size;
        assert(MAX_TEXTURE_WIDTH / g.x <= MAX_TEXTURE_WIDTH) by (nonlinear_arith) requires g.x >= 1;
        assert(MAX_TEXTURE_WIDTH / g.y <= MAX_TEXTURE_WIDTH) by (nonlinear_arith) requires g.y >= 1;
        if !is_ascii_glyph(c) {
            let c2 = if has_glyph { c } else { '\0' };
            let key = c2 as u32;
            if m.lookup.contains_key(key) {
                let i = m.lookup[key];
                assert(i < m.entries.len());
                assert(1 <= m.entries[i as int].location.page_index < m.pages.len());
            } else {
                let full = m.free.page_index >= m.pages.len() && m.pages.len() >= MAX_PAGES;
                if full {
                    assert(m.free != first_free());
                    assert(m.order[m.order.len() - 1] < m.entries.len());
                    assert(1 <= m.entries[m.order.last() as int].location.page_index < m.pages.len());
                }
            }
        } else {
            let index = (c as u32 - ' ' as u32) + 1;
            assert(index <= 95);
        }
    }

    /// Asking twice in a row for the same character gives the same cell, and
    /// the second time nothing is to be drawn.
    pub proof fn lemma_repeat_lookup_hits(&self, c: char, has_glyph: bool, t1: usize, t2: usize)
        requires
            self.wf(),
        ensures
            ({
                let (m1, l1, d1) = self.model().located(c, has_glyph, t1);
                let (m2, l2, d2) = m1.located(c, has_glyph, t2);
                l2 == l1 && d2 == None::<char>
            }),
    {
        let m = self.model();
        self.lru_node_list.lemma_order_is_permutation();
        if !is_ascii_glyph(c) {
            let c2 = if has_glyph { c } else { '\0' };
            let key = c2 as u32;
            let (m1, l1, d1) = m.located(c, has_glyph, t1);
            if m.lookup.contains_key(key) {
                let i = m.lookup[key];
                assert(i < m.entries.len());
                assert(m1.lookup == m.lookup);
                assert(m1.entries[i as int].location == l1);
            } else {
                let full = m.free.page_index >= m.pages.len() && m.pages.len() >= MAX_PAGES;
                if full {
                    assert(m.free != first_free());
                    let i = m.order.last();
                    assert(m.order[m.order.len() - 1] < m.entries.len());
                    assert(i < m.entries.len());
                    assert(m1.lookup[key] == i);
                    assert(m1.entries[i as int].location == l1);
                } else {
                    let n = m.entries.len();
                    assert(m1.lookup[key] == n);
                    assert(m1.entries[n as int].location == l1);
                }
            }
            assert(m1.lookup.contains_key(key));
        }
    }

    /// The cell of `c` (see `GlyphCacheModel::located`), and the character
    /// whose glyph is now to be drawn into it, if any; a character outside
    /// printable ASCII that `font` lacks stands as the character zero.
    pub fn get_glyph_location(&mut self, font: &fontdue::Font, c: char, time_id: usize) -> (r: (GlyphCacheLocation, Option<char>))
        requires
            old(self).wf(),
        ensures
            final(self).wf(),
            (final(self).model(), r.0, r.1) == old(self).model().located(c, true, time_id)
                || (final(self).model(), r.0, r.1) == old(self).model().located(c, false, time_id),
    {
        let has_glyph = if ' ' <= c && c <= '~' { true } else { font_has_glyph(font, c) };
        self.locate(c, has_glyph, time_id)
    }

    /// The cell of `c` (see `GlyphCacheModel::located`), and the character
    /// whose glyph is now to be drawn into it, if any; `has_glyph` tells
    /// whether the font has a glyph for `c`, and `time_id` names the frame.
    pub fn locate(&mut self, c: char, has_glyph: bool, time_id: usize) -> (r: (GlyphCacheLocation, Option<char>))
        requires
            old(self).wf(),
        ensures
            final(self).wf(),
            (final(self).model(), r.0, r.1) == old(self).model().located(c, has_glyph, time_id),
            r.0.page_index < MAX_PAGES,
            r.0.glyph_position.x < MAX_TEXTURE_WIDTH,
            r.0.glyph_position.y < MAX_TEXTURE_WIDTH,
    {
        proof { self.lemma_located_in_bounds(c, has_glyph, time_id); }
        let ghost m0 = self.model();
        if ' ' <= c && c <= '~' {
            return (self.get_ascii_glyph_location(c), None);
        }
        let c2 = if has_glyph { c } else { '\0' };
        let key = c2 as u32;
        let found = match self.lru_node_lookup.get(&key) {
            Some(node_index) => Some(*node_index),
            None => None,
        };
        if let Some(i) = found {
            proof {
                assert(m0.lookup.contains_key(key));
                assert(i == m0.lookup[key]);
                assert(i < m0.entries.len());
            }
            let entry = *self.lru_node_list.get_data(i);
            let updated = CacheEntry { time_id, ..entry };
            let node = self.lru_node_list.get_mut_data(i);
            *node = updated;
            proof {
                let m1 = self.model();
                assert(entry == m0.entries[i as int]);
                assert(m1.entries == m0.entries.update(i as int, updated));
                assert forall|j: int| 0 <= j < m1.entries.len() implies
                    #[trigger] m1.entries[j].character == m0.entries[j].character
                    && m1.entries[j].location == m0.entries[j].location by {}
                assert(m1 =~= GlyphCacheModel { entries: m0.entries.update(i as int, updated), ..m0 });
            }
            return (entry.location, None);
        }
        let location = self.free_glyph_location;
        let mut is_cache_full = location.page_index >= self.pages.len();
        if is_cache_full {
            is_cache_full = !self.try_allocate_unicode_page();
        }
        if !is_cache_full {
            let ghost m1 = self.model();
            proof {
                assert(1 <= location.page_index < m1.pages.len());
                assert(self.pages@[location.page_index as int].atlas_spec().spec_grid_size() == self.unicode_page_grid_size);
            }
            let next = self.get_next_free_location(location);
            let n = self.lru_node_list.push(&CacheEntry { character: c2, location, time_id });
            self.lru_node_lookup.insert(key, n);
            self.free_glyph_location = next;
            proof {
                let m2 = self.model();
                let e = CacheEntry { character: c2, location, time_id };
                assert(m2.entries == m0.entries.push(e));
                assert(m2.lookup == m0.lookup.insert(key, n));
                assert forall|j: int| 0 <= j < m2.entries.len() implies {
                    &&& m2.lookup.contains_key((#[trigger] m2.entries[j]).character as u32)
                    &&& m2.lookup[m2.entries[j].character as u32] == j
                } by {
                    if j < m0.entries.len() {
                        assert(m0.lookup.contains_key(m0.entries[j].character as u32));
                        assert(m0.entries[j].character as u32 != key);
                    }
                }
                assert forall|k: u32| #[trigger] m2.lookup.contains_key(k) implies {
                    &&& m2.lookup[k] < m2.entries.len()
                    &&& m2.entries[m2.lookup[k] as int].character as u32 == k
                } by {
                    if k != key {
                        assert(m0.lookup.contains_key(k));
                    }
                }
                assert(m2.pages =~= m1.pages);
                assert(m2 =~= (old(self).model().located(c, has_glyph, time_id)).0);
            }
            return (location, Some(c2));
        }
        proof {
            self.lru_node_list.lemma_order_is_permutation();
            assert(m0.free.page_index >= MAX_PAGES);
            assert(m0.free != first_free());
        }
        let node_index = match self.lru_node_list.get_oldest() {
            Some(i) => i,
            None => {
                proof { assert(false); }
                return (location, None);
            },
        };
        let entry = *self.lru_node_list.get_data(node_index);
        let node = self.lru_node_list.get_mut_data(node_index);
        *node = CacheEntry { character: c2, location: entry.location, time_id };
        let _is_promoted = self.lru_node_list.promote(node_index);
        let old_key = entry.character as u32;
        self.lru_node_lookup.remove(&old_key);
        self.lru_node_lookup.insert(key, node_index);
        proof {
            let m2 = self.model();
            assert(m2.entries =~= m0.entries.update(node_index as int, CacheEntry { character: c2, location: entry.location, time_id }));
            assert(m2 =~= (m0.located(c, has_glyph, time_id)).0);
        }
        (entry.location, Some(c2))
    }
}

} // verus!
