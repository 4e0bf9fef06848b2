//! Where each character's glyph lives in a block atlas: the printable ASCII
//! characters in the first cells, handed out once; every other character in
//! the next unused cell while there is one, and otherwise in the cell of the
//! least recently used character.
use vstd::prelude::*;
use std::collections::HashMap;
use crate::lru_list::{LruList, move_to_front};
use crate::glyph_grid::Rgba8;
use crate::primitives::{Cell, Vector2};
use crate::glyph_cache::font_has_glyph;
use crate::tile_atlas::{
    GlyphAtlas, GlyphIndex, TileAtlasModel, glyphs_in_block_for, lemma_next_index_rank, max_blocks_for, new_atlas,
};

verus! {

broadcast use vstd::std_specs::hash::group_hash_axioms;

/// How many printable ASCII characters there are.
pub const ASCII_TOTAL_GLYPHS: usize = 95;

/// A character held by the cache, its cell, and the frame that last used it.
#[derive(Clone, Copy, Debug, PartialEq, Eq, Structural)]
pub struct GlyphEntry {
    pub character: char,
    pub atlas_index: GlyphIndex,
    pub render_id: usize,
}

/// A glyph to rasterise and write into a cell.
#[derive(Clone, Copy, Debug, PartialEq, Eq, Structural)]
pub struct TileDraw {
    pub atlas_index: GlyphIndex,
    pub character: char,
}

/// The cache as plain values.
#[verifier::ext_equal]
pub struct TileCacheModel {
    pub atlas: TileAtlasModel,
    /// The cell of each printable ASCII character, from the space on.
    pub ascii: Seq<GlyphIndex>,
    /// The other characters held, by slot.
    pub entries: Seq<GlyphEntry>,
    /// The slots from most to least recently used.
    pub order: Seq<usize>,
    /// The slot of each character held.
    pub lookup: Map<u32, usize>,
}

/// Whether `c` is a printable ASCII character.
pub open spec fn is_ascii_glyph(c: char) -> bool {
    ' ' <= c <= '~'
}

/// Whether `i` is a cell of `atlas`.
pub open spec fn is_cell_of(atlas: TileAtlasModel, i: GlyphIndex) -> bool {
    &&& i.block.x < atlas.total_blocks.x
    &&& i.block.y < atlas.total_blocks.y
    &&& i.position.x < atlas.glyphs_in_block.x
    &&& i.position.y < atlas.glyphs_in_block.y
}

/// The glyph cells, over all blocks, that an atlas for glyphs of
/// `glyph_size` texels in at most `max_texture_size` texels offers.
pub open spec fn atlas_capacity(glyph_size: Vector2, max_texture_size: Vector2) -> int {
    let b = glyphs_in_block_for(glyph_size, max_texture_size);
    let m = max_blocks_for(glyph_size, max_texture_size);
    b.x * b.y * (m.x * m.y)
}

impl TileCacheModel {
    /// The cell of `c`, what the cache is after it was asked, and the glyph
    /// to draw, if any. Printable ASCII characters have their own cells. A
    /// character the font lacks stands as the character zero. A character held
    /// has its frame updated. Another one takes the next unused cell, the
    /// atlas growing to take in its block; once every cell is used it takes
    /// the cell of the least recently used character.
    pub open spec fn located(self, c: char, has_glyph: bool, render_id: usize) -> (TileCacheModel, GlyphIndex, Option<TileDraw>) {
        if is_ascii_glyph(c) {
            (self, self.ascii[c as u32 - ' ' as u32], None)
        } else {
            let c2 = if has_glyph { c } else { '\0' };
            let key = c2 as u32;
            if self.lookup.contains_key(key) {
                let i = self.lookup[key];
                let e = self.entries[i as int];
                (TileCacheModel { entries: self.entries.update(i as int, GlyphEntry { render_id, ..e }), ..self }, e.atlas_index, None)
            } else {
                match self.atlas.allocated() {
                    Some((index, atlas)) => {
                        let n = self.entries.len();
                        (TileCacheModel {
                            atlas,
                            entries: self.entries.push(GlyphEntry { character: c2, atlas_index: index, render_id }),
                            order: seq![n as usize] + self.order,
                            lookup: self.lookup.insert(key, n as usize),
                            ..self
                        }, index, Some(TileDraw { atlas_index: index, character: c2 }))
                    },
                    None => {
                        let i = self.order.last();
                        let e = self.entries[i as int];
                        (TileCacheModel {
                            entries: self.entries.update(i as int, GlyphEntry { character: c2, atlas_index: e.atlas_index, render_id }),
                            order: move_to_front(self.order, i),
                            lookup: self.lookup.remove(e.character as u32).insert(key, i),
                            ..self
                        }, e.atlas_index, Some(TileDraw { atlas_index: e.atlas_index, character: c2 }))
                    },
                }
            }
        }
    }
}

pub struct GlyphCache {
    glyph_atlas: GlyphAtlas,
    ascii_atlas_index: Vec<GlyphIndex>,
    lru_glyph_index: HashMap<u32, usize>,
    lru_glyph_list: LruList<GlyphEntry>,
}

impl GlyphCache {
    pub closed spec fn model(&self) -> TileCacheModel {
        TileCacheModel {
            atlas: self.glyph_atlas.model(),
            ascii: self.ascii_atlas_index@,
            entries: self.lru_glyph_list.items(),
            order: self.lru_glyph_list.order(),
            lookup: self.lru_glyph_index@,
        }
    }

    pub closed spec fn wf(&self) -> bool {
        let m = self.model();
        &&& self.glyph_atlas.wf()
        &&& self.lru_glyph_list.wf()
        &&& m.ascii.len() == ASCII_TOTAL_GLYPHS
        &&& forall|i: int| 0 <= i < m.ascii.len() ==> is_cell_of(m.atlas, #[trigger] m.ascii[i])
        &&& forall|i: int| 0 <= i < m.entries.len() ==> {
            &&& m.lookup.contains_key((#[trigger] m.entries[i]).character as u32)
            &&& m.lookup[m.entries[i].character as u32] == i
            &&& is_cell_of(m.atlas, m.entries[i].atlas_index)
        }
        &&& forall|k: u32| #[trigger] m.lookup.contains_key(k) ==> {
            &&& m.lookup[k] < m.entries.len()
            &&& m.entries[m.lookup[k] as int].character as u32 == k
        }
        &&& m.atlas.glyphs_in_block.x >= 1
        &&& m.atlas.glyphs_in_block.y >= 1
        &&& m.atlas.free.block.y < m.atlas.max_blocks.y ==> {
            &&& m.atlas.free.position.x < m.atlas.glyphs_in_block.x
            &&& m.atlas.free.position.y < m.atlas.glyphs_in_block.y
        }
        &&& m.atlas.free.block.y >= m.atlas.max_blocks.y ==> m.entries.len() > 0
    }
}

/// `k` cells handed out one after another from `atlas`, and the atlas after.
pub open spec fn allocated_n(atlas: TileAtlasModel, k: nat) -> (Seq<GlyphIndex>, TileAtlasModel)
    decreases k,
{
    if k == 0 {
        (Seq::empty(), atlas)
    } else {
        let (cells, a1) = allocated_n(atlas, (k - 1) as nat);
        match a1.allocated() {
            Some((i, a2)) => (cells.push(i), a2),
            None => (cells, a1),
        }
    }
}

/// The glyphs of the printable ASCII characters, in order, drawn into `cells`.
pub open spec fn ascii_draws(cells: Seq<GlyphIndex>) -> Seq<TileDraw> {
    Seq::new(cells.len(), |k: int| TileDraw { atlas_index: cells[k], character: (' ' as u32 + k) as char })
}

impl GlyphCache {
    /// A cache for glyphs of `glyph_size` texels in an atlas of at most
    /// `max_texture_size` texels that can hold more glyphs than there are
    /// printable ASCII characters. The ASCII characters take the first cells,
    /// in order; gives the cache and their glyphs to draw.
    pub fn new(glyph_size: Vector2, max_texture_size: Vector2) -> (r: (Self, Vec<TileDraw>))
        requires
            glyph_size.x >= 1,
            glyph_size.y >= 1,
            max_texture_size.x * max_texture_size.y <= usize::MAX,
            atlas_capacity(glyph_size, max_texture_size) > ASCII_TOTAL_GLYPHS,
        ensures
            r.0.wf(),
            ({
                let (cells, atlas) = allocated_n(new_atlas(glyph_size, max_texture_size), ASCII_TOTAL_GLYPHS as nat);
                &&& r.0.model() == TileCacheModel {
                    atlas,
                    ascii: cells,
                    entries: Seq::empty(),
                    order: Seq::empty(),
                    lookup: Map::empty(),
                }
                &&& r.1@ == ascii_draws(cells)
            }),
    {
        let mut atlas = GlyphAtlas::new(glyph_size, max_texture_size);
        let ghost a0 = atlas.model();
        proof {
            let b = a0.glyphs_in_block;
            let mb = a0.max_blocks;
            assert(b.x * b.y * (mb.x * mb.y) == a0.capacity()) by (nonlinear_arith)
                requires a0.capacity() == mb.x * mb.y * b.y * b.x;
            assert(b.x >= 1 && b.y >= 1) by (nonlinear_arith)
                requires b.x * b.y * (mb.x * mb.y) > 95;
            atlas.lemma_model_bounds();
            let mx = mb.x as int;
            let by = b.y as int;
            let bx = b.x as int;
            assert(((0 * mx + 0) * by + 0) * bx + 0 == 0) by (nonlinear_arith);
            assert(a0.rank(a0.free) == 0);
        }
        let mut cells: Vec<GlyphIndex> = Vec::with_capacity(ASCII_TOTAL_GLYPHS);
        let mut draws: Vec<TileDraw> = Vec::with_capacity(ASCII_TOTAL_GLYPHS);
        let mut k: usize = 0;
        while k < ASCII_TOTAL_GLYPHS
            invariant
                k <= ASCII_TOTAL_GLYPHS,
                atlas.wf(),
                a0 == new_atlas(glyph_size, max_texture_size),
                a0.capacity() > ASCII_TOTAL_GLYPHS,
                atlas.model().glyphs_in_block == a0.glyphs_in_block,
                atlas.model().max_blocks == a0.max_blocks,
                a0.glyphs_in_block.x >= 1,
                a0.glyphs_in_block.y >= 1,
                atlas.model().rank(atlas.model().free) == k,
                atlas.model().free.block.y < a0.max_blocks.y,
                atlas.model().free.position.x < a0.glyphs_in_block.x,
                atlas.model().free.position.y < a0.glyphs_in_block.y,
                allocated_n(a0, k as nat) == (cells@, atlas.model()),
                cells@.len() == k,
                draws@ == ascii_draws(cells@),
                forall|i: int| 0 <= i < cells@.len() ==> is_cell_of(atlas.model(), #[trigger] cells@[i]),
            decreases ASCII_TOTAL_GLYPHS - k,
        {
            let ghost m = atlas.model();
            proof {
                atlas.lemma_model_bounds();
                lemma_next_index_rank(m, m.free);
            }
            let index = match atlas.get_new_free_index() {
                Some(i) => i,
                None => {
                    proof { assert(false); }
                    return (GlyphCache {
                        glyph_atlas: atlas,
                        ascii_atlas_index: cells,
                        lru_glyph_index: HashMap::new(),
                        lru_glyph_list: LruList::new(),
                    }, draws);
                },
            };
            let c = (0x20u8 + k as u8) as char;
            let ghost old_cells = cells@;
            cells.push(index);
            draws.push(TileDraw { atlas_index: index, character: c });
            proof {
                assert(0x20u8 + k as u8 == 32 + k);
                assert(' ' as u32 == 32);
                assert(c == (' ' as u32 + k) as char);
                assert forall|j: int| 0 <= j < cells@.len() implies #[trigger] draws@[j] == ascii_draws(cells@)[j] by {
                    if j < k {
                        assert(cells@[j] == old_cells[j]);
                    }
                }
                assert(draws@ =~= ascii_draws(cells@));
                let m2 = atlas.model();
                assert(m2.rank(m2.free) == k + 1);
                assert(m2.rank(m2.free) < m2.capacity());
            }
            k = k + 1;
        }
        let r = GlyphCache {
            glyph_atlas: atlas,
            ascii_atlas_index: cells,
            lru_glyph_index: HashMap::new(),
            lru_glyph_list: LruList::new(),
        };
        proof {
            assert(r.model().lookup =~= Map::<u32, usize>::empty());
        }
        (r, draws)
    }
}

impl GlyphCache {
    /// The atlas of a well-formed cache has no more blocks than allowed, and
    /// room for at least one glyph in a block.
    pub proof fn lemma_atlas_bounds(&self)
        requires
            self.wf(),
        ensures
            self.model().atlas.total_blocks.x <= self.model().atlas.max_blocks.x,
            self.model().atlas.total_blocks.y <= self.model().atlas.max_blocks.y,
            self.model().atlas.glyphs_in_block.x >= 1,
            self.model().atlas.glyphs_in_block.y >= 1,
    {
        self.glyph_atlas.lemma_model_bounds();
    }

    /// Asking twice in a row for the same character gives the same cell, and
    /// the second time nothing is to be drawn.
    pub proof fn lemma_repeat_lookup_hits(&self, c: char, has_glyph: bool, t1: usize, t2: usize)
        requires
            self.wf(),
        ensures
            ({
                let (m1, l1, d1) = self.model().located(c, has_glyph, t1);
                let (m2, l2, d2) = m1.located(c, has_glyph, t2);
                l2 == l1 && d2 == None::<TileDraw>
            }),
    {
        let m = self.model();
        self.lru_glyph_list.lemma_order_is_permutation();
        if !is_ascii_glyph(c) {
            let c2 = if has_glyph { c } else { '\0' };
            let key = c2 as u32;
            let (m1, l1, d1) = m.located(c, has_glyph, t1);
            if m.lookup.contains_key(key) {
                let i = m.lookup[key];
                assert(i < m.entries.len());
                assert(m1.entries[i as int].atlas_index == l1);
            } else {
                match m.atlas.allocated() {
                    Some((index, atlas)) => {
                        let n = m.entries.len();
                        assert(m1.lookup[key] == n);
                        assert(m1.entries[n as int].atlas_index == l1);
                    },
                    None => {
                        let i = m.order.last();
                        assert(m.order[m.order.len() - 1] < m.entries.len());
                        assert(m1.lookup[key] == i);
                        assert(m1.entries[i as int].atlas_index == l1);
                    },
                }
            }
            assert(m1.lookup.contains_key(key));
        }
    }

    /// The atlas.
    pub fn get_glyph_atlas(&self) -> (r: &GlyphAtlas)
        ensures
            r.model() == self.model().atlas,
            self.wf() ==> r.wf(),
    {
        &self.glyph_atlas
    }

    /// The cell of the printable ASCII character `c`.
    pub fn get_ascii_atlas_index(&self, c: char) -> (r: GlyphIndex)
        requires
            self.wf(),
            is_ascii_glyph(c),
        ensures
            r == self.model().ascii[c as u32 - ' ' as u32],
    {
        let i = (c as u32 - ' ' as u32) as usize;
        self.ascii_atlas_index[i]
    }

    /// Writes the glyph `src` into the atlas cell `index` (see `GlyphAtlas::write_glyph`).
    pub fn write_glyph(&mut self, index: GlyphIndex, src: &[u8])
        requires
            old(self).wf(),
            is_cell_of(old(self).model().atlas, index),
            src@.len() == old(self).model().atlas.glyph_size.x * old(self).model().atlas.glyph_size.y,
        ensures
            final(self).wf(),
            ({
                let m = old(self).model();
                let a = m.atlas;
                let n = a.block_number(index.block);
                final(self).model() == TileCacheModel {
                    atlas: TileAtlasModel {
                        data: a.with_glyph(index, src@),
                        modified: a.modified.update(n, if a.modified[n] < usize::MAX { (a.modified[n] + 1) as usize } else { a.modified[n] }),
                        ..a
                    },
                    ..m
                }
            }),
    {
        self.glyph_atlas.write_glyph(index, src);
        proof {
            let m = old(self).model();
            assert forall|i: int| 0 <= i < m.entries.len() implies is_cell_of(self.model().atlas, #[trigger] m.entries[i].atlas_index) by {
                assert(is_cell_of(m.atlas, m.entries[i].atlas_index));
            }
            assert forall|i: int| 0 <= i < m.ascii.len() implies is_cell_of(self.model().atlas, #[trigger] m.ascii[i]) by {
                assert(is_cell_of(m.atlas, m.ascii[i]));
            }
        }
    }

    /// Counts no block of the atlas as changed.
    pub fn clear_modified_count(&mut self)
        requires
            old(self).wf(),
        ensures
            final(self).wf(),
            final(self).model() == (TileCacheModel {
                atlas: TileAtlasModel {
                    modified: Seq::new(old(self).model().atlas.modified.len(), |i: int| 0usize),
                    ..old(self).model().atlas
                },
                ..old(self).model()
            }),
    {
        self.glyph_atlas.clear_modified_count();
        proof {
            let m = old(self).model();
            assert forall|i: int| 0 <= i < m.entries.len() implies is_cell_of(self.model().atlas, #[trigger] m.entries[i].atlas_index) by {
                assert(is_cell_of(m.atlas, m.entries[i].atlas_index));
            }
            assert forall|i: int| 0 <= i < m.ascii.len() implies is_cell_of(self.model().atlas, #[trigger] m.ascii[i]) by {
                assert(is_cell_of(m.atlas, m.ascii[i]));
            }
        }
    }

    /// The cell of `c` (see `TileCacheModel::located`), and the glyph to
    /// draw, if any; `has_glyph` tells whether the font has a glyph for `c`,
    /// and `render_id` names the frame.
    pub fn locate(&mut self, c: char, has_glyph: bool, render_id: usize) -> (r: (GlyphIndex, Option<TileDraw>))
        requires
            old(self).wf(),
        ensures
            final(self).wf(),
            (final(self).model(), r.0, r.1) == old(self).model().located(c, has_glyph, render_id),
            is_cell_of(final(self).model().atlas, r.0),
    {
        let ghost m0 = self.model();
        if ' ' <= c && c <= '~' {
            let r = self.get_ascii_atlas_index(c);
            proof { assert(is_cell_of(m0.atlas, m0.ascii[c as u32 - ' ' as u32])); }
            return (r, None);
        }
        let c2 = if has_glyph { c } else { '\0' };
        let key = c2 as u32;
        let found = match self.lru_glyph_index.get(&key) {
            Some(glyph_index) => Some(*glyph_index),
            None => None,
        };
        if let Some(i) = found {
            proof {
                assert(m0.lookup.contains_key(key));
                assert(i == m0.lookup[key]);
                assert(i < m0.entries.len());
            }
            let entry = *self.lru_glyph_list.get_data(i);
            let updated = GlyphEntry { render_id, ..entry };
            let node = self.lru_glyph_list.get_mut_data(i);
            *node = updated;
            proof {
                let m1 = self.model();
                assert(entry == m0.entries[i as int]);
                assert(m1.entries == m0.entries.update(i as int, updated));
                assert forall|j: int| 0 <= j < m1.entries.len() implies
                    #[trigger] m1.entries[j].character == m0.entries[j].character
                    && m1.entries[j].atlas_index == m0.entries[j].atlas_index by {}
                assert(m1 =~= TileCacheModel { entries: m0.entries.update(i as int, updated), ..m0 });
            }
            return (entry.atlas_index, None);
        }
        proof {
            self.glyph_atlas.lemma_model_bounds();
            if m0.atlas.free.block.y < m0.atlas.max_blocks.y {
                lemma_next_index_rank(m0.atlas, m0.atlas.free);
            }
        }
        match self.glyph_atlas.get_new_free_index() {
            Some(index) => {
                let n = self.lru_glyph_list.push(&GlyphEntry { character: c2, atlas_index: index, render_id });
                self.lru_glyph_index.insert(key, n);
                proof {
                    let m2 = self.model();
                    let e = GlyphEntry { character: c2, atlas_index: index, render_id };
                    assert(m2.entries == m0.entries.push(e));
                    assert(m2.lookup == m0.lookup.insert(key, n));
                    assert forall|j: int| 0 <= j < m2.entries.len() implies {
                        &&& m2.lookup.contains_key((#[trigger] m2.entries[j]).character as u32)
                        &&& m2.lookup[m2.entries[j].character as u32] == j
                        &&& is_cell_of(m2.atlas, m2.entries[j].atlas_index)
                    } by {
                        if j < m0.entries.len() {
                            assert(m0.lookup.contains_key(m0.entries[j].character as u32));
                            assert(m0.entries[j].character as u32 != key);
                            assert(is_cell_of(m0.atlas, m0.entries[j].atlas_index));
                        }
                    }
                    assert forall|k: u32| #[trigger] m2.lookup.contains_key(k) implies {
                        &&& m2.lookup[k] < m2.entries.len()
                        &&& m2.entries[m2.lookup[k] as int].character as u32 == k
                    } by {
                        if k != key {
                            assert(m0.lookup.contains_key(k));
                        }
                    }
                    assert forall|j: int| 0 <= j < m2.ascii.len() implies is_cell_of(m2.atlas, #[trigger] m2.ascii[j]) by {
                        assert(is_cell_of(m0.atlas, m0.ascii[j]));
                    }
                    assert(m2 =~= (m0.located(c, has_glyph, render_id)).0);
                }
                (index, Some(TileDraw { atlas_index: index, character: c2 }))
            },
            None => {
                proof {
                    self.lru_glyph_list.lemma_order_is_permutation();
                }
                let glyph_index = match self.lru_glyph_list.get_oldest() {
                    Some(i) => i,
                    None => {
                        proof { assert(false); }
                        return (self.get_ascii_atlas_index(' '), None);
                    },
                };
                proof {
                    assert(m0.order[m0.order.len() - 1] < m0.entries.len());
                }
                let entry = *self.lru_glyph_list.get_data(glyph_index);
                let node = self.lru_glyph_list.get_mut_data(glyph_index);
                *node = GlyphEntry { character: c2, atlas_index: entry.atlas_index, render_id };
                let _is_promoted = self.lru_glyph_list.promote(glyph_index);
                let old_key = entry.character as u32;
                self.lru_glyph_index.remove(&old_key);
                self.lru_glyph_index.insert(key, glyph_index);
                proof {
                    let m2 = self.model();
                    assert(m2.entries =~= m0.entries.update(glyph_index as int,
                        GlyphEntry { character: c2, atlas_index: entry.atlas_index, render_id }));
                    assert(is_cell_of(m0.atlas, m0.entries[glyph_index as int].atlas_index));
                    assert forall|j: int| 0 <= j < m2.entries.len() implies {
                        &&& m2.lookup.contains_key((#[trigger] m2.entries[j]).character as u32)
                        &&& m2.lookup[m2.entries[j].character as u32] == j
                        &&& is_cell_of(m2.atlas, m2.entries[j].atlas_index)
                    } by {
                        if j != glyph_index {
                            assert(m0.lookup.contains_key(m0.entries[j].character as u32));
                            assert(m0.entries[j].character as u32 != key);
                            assert(m0.entries[j].character as u32 != old_key);
                            assert(is_cell_of(m0.atlas, m0.entries[j].atlas_index));
                        }
                    }
                    assert forall|k: u32| #[trigger] m2.lookup.contains_key(k) implies {
                        &&& m2.lookup[k] < m2.entries.len()
                        &&& m2.entries[m2.lookup[k] as int].character as u32 == k
                    } by {
                        if k != key {
                            assert(m0.lookup.contains_key(k));
                        }
                    }
                    assert(m2 =~= (m0.located(c, has_glyph, render_id)).0);
                }
                (entry.atlas_index, Some(TileDraw { atlas_index: entry.atlas_index, character: c2 }))
            },
        }
    }

    /// The cell of `c` (see `TileCacheModel::located`), and the glyph to
    /// draw, if any; a character outside printable ASCII that `font` lacks
    /// stands as the character zero.
    pub fn get_glyph_location(&mut self, font: &fontdue::Font, c: char, render_id: usize) -> (r: (GlyphIndex, Option<TileDraw>))
        requires
            old(self).wf(),
        ensures
            final(self).wf(),
            (final(self).model(), r.0, r.1) == old(self).model().located(c, true, render_id)
                || (final(self).model(), r.0, r.1) == old(self).model().located(c, false, render_id),
            is_cell_of(final(self).model().atlas, r.0),
    {
        let has_glyph = if ' ' <= c && c <= '~' { true } else { font_has_glyph(font, c) };
        self.locate(c, has_glyph, render_id)
    }
}

/// A position in the atlas counted in glyph cells over all blocks.
#[derive(Clone, Copy, Debug, Default, PartialEq, Eq, Structural)]
pub struct AtlasPosition {
    pub x: u16,
    pub y: u16,
}

/// What a tile renderer draws a terminal cell with: the glyph's atlas
/// position, its colours and its style bits.
#[derive(Clone, Copy, Debug, PartialEq, Eq, Structural)]
pub struct CellData {
    pub atlas_index: AtlasPosition,
    pub colour_foreground: Rgba8,
    pub colour_background: Rgba8,
    pub style_flags: u32,
}

impl Default for CellData {
    /// All zero.
    fn default() -> (r: Self)
        ensures
            r == zeroed_cell_data(),
    {
        CellData {
            atlas_index: AtlasPosition { x: 0, y: 0 },
            colour_foreground: Rgba8 { r: 0, g: 0, b: 0, a: 0 },
            colour_background: Rgba8 { r: 0, g: 0, b: 0, a: 0 },
            style_flags: 0,
        }
    }
}

/// A cell record of all zeros.
pub open spec fn zeroed_cell_data() -> CellData {
    CellData {
        atlas_index: AtlasPosition { x: 0, y: 0 },
        colour_foreground: Rgba8 { r: 0, g: 0, b: 0, a: 0 },
        colour_background: Rgba8 { r: 0, g: 0, b: 0, a: 0 },
        style_flags: 0,
    }
}

/// The cache after being asked for the characters of `cells` one after
/// another, `known` telling for each whether the font has its glyph; with the
/// cell handed out for each, and the glyphs to draw, in the order asked.
pub open spec fn located_all(m: TileCacheModel, cells: Seq<Cell>, known: Seq<bool>, render_id: usize)
    -> (TileCacheModel, Seq<GlyphIndex>, Seq<TileDraw>)
    decreases cells.len(),
{
    if cells.len() == 0 {
        (m, Seq::empty(), Seq::empty())
    } else {
        let (m1, indices, draws) = located_all(m, cells.drop_last(), known.drop_last(), render_id);
        let (m2, i, d) = m1.located(cells.last().character, known.last(), render_id);
        (m2, indices.push(i), match d {
            Some(t) => draws.push(t),
            None => draws,
        })
    }
}

/// The record showing `cell` with the glyph in cell `i` of an atlas whose
/// blocks hold `per_block` glyph cells: the position counted over all
/// blocks, the cell's colours made opaque, no style bit.
pub open spec fn cell_data(i: GlyphIndex, per_block: Vector2, cell: Cell) -> CellData {
    CellData {
        atlas_index: AtlasPosition {
            x: (i.block.x * per_block.x + i.position.x) as u16,
            y: (i.block.y * per_block.y + i.position.y) as u16,
        },
        colour_foreground: Rgba8 { r: cell.pen.foreground_colour.r, g: cell.pen.foreground_colour.g, b: cell.pen.foreground_colour.b, a: 255 },
        colour_background: Rgba8 { r: cell.pen.background_colour.r, g: cell.pen.background_colour.g, b: cell.pen.background_colour.b, a: 255 },
        style_flags: 0,
    }
}

/// Makes `grid` hold one record per cell of `cells` (see `cell_data`),
/// asking `cache` for the characters in order (see `located_all`), where the
/// atlas positions fit in 16 bits; gives the glyphs to draw.
pub fn update_grid_from_terminal(
    grid: &mut Vec<CellData>,
    cache: &mut GlyphCache,
    cells: &[Cell],
    known: &[bool],
    render_id: usize,
) -> (r: Vec<TileDraw>)
    requires
        old(cache).wf(),
        old(cache).model().atlas.max_blocks.x * old(cache).model().atlas.glyphs_in_block.x <= 0x10000,
        old(cache).model().atlas.max_blocks.y * old(cache).model().atlas.glyphs_in_block.y <= 0x10000,
        known@.len() == cells@.len(),
    ensures
        final(cache).wf(),
        ({
            let (m, indices, draws) = located_all(old(cache).model(), cells@, known@, render_id);
            &&& final(cache).model() == m
            &&& r@ == draws
            &&& final(grid)@ == Seq::new(cells@.len(), |k: int| cell_data(indices[k], m.atlas.glyphs_in_block, cells@[k]))
        }),
{
    let ghost m0 = cache.model();
    let per_block = cache.get_glyph_atlas().get_total_glyphs_in_block();
    let mut out: Vec<CellData> = Vec::with_capacity(cells.len());
    let mut draws: Vec<TileDraw> = Vec::new();
    let ghost mut indices: Seq<GlyphIndex> = Seq::empty();
    let mut k: usize = 0;
    proof {
        assert(cells@.take(0) =~= Seq::<Cell>::empty());
        assert(known@.take(0) =~= Seq::<bool>::empty());
    }
    while k < cells.len()
        invariant
            known@.len() == cells@.len(),
            k <= cells@.len(),
            cache.wf(),
            cache.model().atlas.glyphs_in_block == per_block,
            cache.model().atlas.max_blocks == m0.atlas.max_blocks,
            per_block == m0.atlas.glyphs_in_block,
            m0.atlas.max_blocks.x * per_block.x <= 0x10000,
            m0.atlas.max_blocks.y * per_block.y <= 0x10000,
            indices.len() == k,
            located_all(m0, cells@.take(k as int), known@.take(k as int), render_id) == (cache.model(), indices, draws@),
            out@ == Seq::new(k as nat, |j: int| cell_data(indices[j], per_block, cells@[j])),
        decreases cells@.len() - k,
    {
        let cell = cells[k];
        proof {
            assert(cells@.take(k + 1).drop_last() =~= cells@.take(k as int));
            assert(known@.take(k + 1).drop_last() =~= known@.take(k as int));
            assert(cells@.take(k + 1).last() == cell);
            assert(known@.take(k + 1).last() == known@[k as int]);
        }
        let (index, draw) = cache.locate(cell.character, known[k], render_id);
        proof {
            cache.lemma_atlas_bounds();
            let mb = m0.atlas.max_blocks;
            assert(index.block.x * per_block.x + index.position.x < 0x10000) by (nonlinear_arith)
                requires index.block.x < mb.x, index.position.x < per_block.x, mb.x * per_block.x <= 0x10000;
            assert(index.block.y * per_block.y + index.position.y < 0x10000) by (nonlinear_arith)
                requires index.block.y < mb.y, index.position.y < per_block.y, mb.y * per_block.y <= 0x10000;
        }
        let x = index.block.x * per_block.x + index.position.x;
        let y = index.block.y * per_block.y + index.position.y;
        let fg = cell.pen.foreground_colour;
        let bg = cell.pen.background_colour;
        out.push(CellData {
            atlas_index: AtlasPosition { x: x as u16, y: y as u16 },
            colour_foreground: Rgba8 { r: fg.r, g: fg.g, b: fg.b, a: 255 },
            colour_background: Rgba8 { r: bg.r, g: bg.g, b: bg.b, a: 255 },
            style_flags: 0,
        });
        match draw {
            Some(t) => { draws.push(t); },
            None => {},
        }
        proof {
            indices = indices.push(index);
            assert(out@ =~= Seq::new((k + 1) as nat, |j: int| cell_data(indices[j], per_block, cells@[j])));
        }
        k = k + 1;
    }
    proof {
        assert(cells@.take(cells@.len() as int) =~= cells@);
        assert(known@.take(known@.len() as int) =~= known@);
    }
    *grid = out;
    draws
}

} // verus!
