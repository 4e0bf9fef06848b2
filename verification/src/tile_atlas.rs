//! A glyph texture cut into blocks of glyph cells, so that a renderer can
//! upload only the blocks that changed. Blocks are added as glyphs need them,
//! filling the first row of blocks before the next.
use vstd::prelude::*;
use crate::primitives::Vector2;

verus! {

/// A glyph cell: its block, and its column and row in the block.
#[derive(Clone, Copy, Debug, PartialEq, Eq, Structural)]
pub struct GlyphIndex {
    pub block: Vector2,
    pub position: Vector2,
}

impl Default for GlyphIndex {
    /// The first cell of the first block.
    fn default() -> (r: Self)
        ensures
            r == zero_index(),
    {
        GlyphIndex { block: Vector2 { x: 0, y: 0 }, position: Vector2 { x: 0, y: 0 } }
    }
}

/// The first cell of the first block.
pub open spec fn zero_index() -> GlyphIndex {
    GlyphIndex { block: Vector2 { x: 0, y: 0 }, position: Vector2 { x: 0, y: 0 } }
}

/// The atlas as plain values. The texture holds the blocks one after
/// another, row of blocks after row of blocks; a block holds its texel rows
/// one after another, each `glyphs_in_block.x` glyphs wide.
#[verifier::ext_equal]
pub struct TileAtlasModel {
    pub data: Seq<u8>,
    pub glyph_size: Vector2,
    pub glyphs_in_block: Vector2,
    pub total_blocks: Vector2,
    pub max_blocks: Vector2,
    /// The next unused glyph cell.
    pub free: GlyphIndex,
    /// For each block, how many glyphs were written into it since the counts
    /// were last cleared.
    pub modified: Seq<usize>,
}

impl TileAtlasModel {
    /// The texels of a block.
    pub open spec fn block_stride(self) -> int {
        self.glyphs_in_block.x * self.glyphs_in_block.y * self.glyph_size.x * self.glyph_size.y
    }

    /// The texels of one texel row of a block.
    pub open spec fn row_stride(self) -> int {
        self.glyphs_in_block.x * self.glyph_size.x
    }

    /// The place of block `block` among the blocks.
    pub open spec fn block_number(self, block: Vector2) -> int {
        block.x + block.y * self.total_blocks.x
    }

    /// Where the top-left texel of glyph cell `index` is.
    pub open spec fn glyph_base(self, index: GlyphIndex) -> int {
        self.block_number(index.block) * self.block_stride()
            + index.position.y * self.glyph_size.y * self.row_stride()
            + index.position.x * self.glyph_size.x
    }

    /// The size of the texture in texels.
    pub open spec fn texture_size(self) -> Vector2 {
        Vector2 {
            x: (self.glyph_size.x * self.glyphs_in_block.x * self.total_blocks.x) as usize,
            y: (self.glyph_size.y * self.glyphs_in_block.y * self.total_blocks.y) as usize,
        }
    }

    /// The glyph cell after `i`: along the row of the block, then down the
    /// block, then on to the next block of the row of blocks, then to the
    /// first block of the next row of blocks. A cell below the last row of
    /// blocks has no cell after it.
    pub open spec fn next_index(self, i: GlyphIndex) -> Option<GlyphIndex> {
        if i.block.y >= self.max_blocks.y {
            None
        } else {
            let x1 = i.position.x + 1;
            let (px, py) = if x1 >= self.glyphs_in_block.x { (0int, i.position.y + 1) } else { (x1, i.position.y as int) };
            let (px2, py2, bx) = if py >= self.glyphs_in_block.y { (0int, 0int, i.block.x + 1) } else { (px, py, i.block.x as int) };
            let (bx2, by2) = if bx >= self.max_blocks.x { (0int, i.block.y + 1) } else { (bx, i.block.y as int) };
            Some(GlyphIndex {
                block: Vector2 { x: bx2 as usize, y: by2 as usize },
                position: Vector2 { x: px2 as usize, y: py2 as usize },
            })
        }
    }

    /// The atlas grown to `total_blocks` blocks: the texture extended with
    /// blank texels to its new size, and every block counted as changed.
    pub open spec fn resized(self, total_blocks: Vector2) -> TileAtlasModel {
        let m = TileAtlasModel { total_blocks, ..self };
        let len = m.texture_size().x * m.texture_size().y;
        TileAtlasModel {
            data: if len <= self.data.len() { self.data.take(len) } else {
                self.data + Seq::new((len - self.data.len()) as nat, |i: int| 0u8) },
            modified: Seq::new((total_blocks.x * total_blocks.y) as nat, |i: int| 1usize),
            ..m
        }
    }

    /// `data` with the glyph `src` (rows of `glyph_size.x` texels) written
    /// into glyph cell `index`.
    pub open spec fn with_glyph(self, index: GlyphIndex, src: Seq<u8>) -> Seq<u8> {
        let base = self.glyph_base(index);
        let r = self.row_stride();
        let g = self.glyph_size;
        Seq::new(self.data.len(), |k: int| {
            let d = k - base;
            if 0 <= d && d / r < g.y && d % r < g.x { src[(d / r) * g.x + d % r] } else { self.data[k] }
        })
    }

    /// The blocks written into since the counts were last cleared, as
    /// column and row, in the order the blocks are laid out, among the
    /// first `n` counts.
    pub open spec fn modified_blocks(self, n: nat) -> Seq<Vector2>
        decreases n,
    {
        if n == 0 {
            Seq::empty()
        } else {
            let rest = self.modified_blocks((n - 1) as nat);
            let i = n - 1;
            if self.modified[i] > 0 {
                rest.push(Vector2 { x: (i % (self.total_blocks.x as int)) as usize, y: (i / (self.total_blocks.x as int)) as usize })
            } else {
                rest
            }
        }
    }
}

pub struct GlyphAtlas {
    data: Vec<u8>,
    glyph_size: Vector2,
    total_glyphs_in_block: Vector2,
    total_blocks: Vector2,
    max_blocks: Vector2,
    free_index: GlyphIndex,
    total_modified_glyphs_per_block: Vec<usize>,
}

impl GlyphAtlas {
    pub closed spec fn model(&self) -> TileAtlasModel {
        TileAtlasModel {
            data: self.data@,
            glyph_size: self.glyph_size,
            glyphs_in_block: self.total_glyphs_in_block,
            total_blocks: self.total_blocks,
            max_blocks: self.max_blocks,
            free: self.free_index,
            modified: self.total_modified_glyphs_per_block@,
        }
    }

    pub closed spec fn wf(&self) -> bool {
        let m = self.model();
        &&& self.sized()
        &&& m.data.len() == m.texture_size().x * m.texture_size().y
        &&& m.modified.len() == m.total_blocks.x * m.total_blocks.y
    }

    /// The sizes are within their limits and the free cell is in its block.
    pub closed spec fn sized(&self) -> bool {
        let m = self.model();
        &&& m.glyph_size.x >= 1
        &&& m.glyph_size.y >= 1
        &&& 1 <= m.total_blocks.x <= m.max_blocks.x
        &&& 1 <= m.total_blocks.y <= m.max_blocks.y
        &&& m.glyph_size.x * m.glyphs_in_block.x * m.max_blocks.x <= usize::MAX
        &&& m.glyph_size.y * m.glyphs_in_block.y * m.max_blocks.y <= usize::MAX
        &&& (m.glyph_size.x * m.glyphs_in_block.x * m.max_blocks.x) * (m.glyph_size.y * m.glyphs_in_block.y * m.max_blocks.y) <= usize::MAX
        &&& m.max_blocks.x * m.max_blocks.y <= usize::MAX
        &&& m.free.block.x < m.max_blocks.x
        &&& m.free.block.y <= m.max_blocks.y
        &&& m.free.position.x == 0 || m.free.position.x < m.glyphs_in_block.x
        &&& m.free.position.y == 0 || m.free.position.y < m.glyphs_in_block.y
    }
}

/// The most blocks across and down for glyphs of `glyph_size` texels in a
/// texture of at most `max_texture_size` texels: as many blocks of the
/// desired size as fit, and at least one.
pub open spec fn max_blocks_for(glyph_size: Vector2, max_texture_size: Vector2) -> Vector2 {
    let gx = max_texture_size.x / glyph_size.x;
    let gy = max_texture_size.y / glyph_size.y;
    Vector2 {
        x: if gx / 16 >= 1 { (gx / 16) as usize } else { 1 },
        y: if gy / 8 >= 1 { (gy / 8) as usize } else { 1 },
    }
}

/// The glyph cells of a block, across and down: the glyphs that fit in the
/// texture, shared among the blocks.
pub open spec fn glyphs_in_block_for(glyph_size: Vector2, max_texture_size: Vector2) -> Vector2 {
    let mb = max_blocks_for(glyph_size, max_texture_size);
    Vector2 {
        x: ((max_texture_size.x / glyph_size.x) / mb.x) as usize,
        y: ((max_texture_size.y / glyph_size.y) / mb.y) as usize,
    }
}

/// A new atlas: one blank block, counted as changed, and the first cell free.
pub open spec fn new_atlas(glyph_size: Vector2, max_texture_size: Vector2) -> TileAtlasModel {
    let gib = glyphs_in_block_for(glyph_size, max_texture_size);
    TileAtlasModel {
        data: Seq::new((glyph_size.x * gib.x * (glyph_size.y * gib.y)) as nat, |i: int| 0u8),
        glyph_size,
        glyphs_in_block: gib,
        total_blocks: Vector2 { x: 1, y: 1 },
        max_blocks: max_blocks_for(glyph_size, max_texture_size),
        free: zero_index(),
        modified: seq![1usize],
    }
}

/// A glyph cell count along one side, times its blocks, fits the texture side.
proof fn lemma_side_fits(side: nat, glyph: nat, blocks: nat)
    requires
        glyph >= 1,
        blocks >= 1,
    ensures
        glyph * ((side / glyph) / blocks) * blocks <= side,
{
    let g = side / glyph;
    let b = g / blocks;
    assert(b * blocks <= g) by (nonlinear_arith) requires b == g / blocks, blocks >= 1;
    assert(glyph * g <= side) by (nonlinear_arith) requires g == side / glyph, glyph >= 1;
    assert(glyph * b * blocks <= glyph * g) by (nonlinear_arith) requires b * blocks <= g, glyph >= 1;
}

impl GlyphAtlas {
    /// An atlas for glyphs of `glyph_size` texels whose texture may grow to
    /// `max_texture_size` texels (see `max_blocks_for` and
    /// `glyphs_in_block_for`), holding one blank block, counted as changed.
    pub fn new(glyph_size: Vector2, max_texture_size: Vector2) -> (r: Self)
        requires
            glyph_size.x >= 1,
            glyph_size.y >= 1,
            max_texture_size.x * max_texture_size.y <= usize::MAX,
        ensures
            r.wf(),
            r.model() == new_atlas(glyph_size, max_texture_size),
    {
        let grid_x = max_texture_size.x / glyph_size.x;
        let grid_y = max_texture_size.y / glyph_size.y;
        let bx = if grid_x / 16 >= 1 { grid_x / 16 } else { 1 };
        let by = if grid_y / 8 >= 1 { grid_y / 8 } else { 1 };
        let gib = Vector2 { x: grid_x / bx, y: grid_y / by };
        proof {
            lemma_side_fits(max_texture_size.x as nat, glyph_size.x as nat, bx as nat);
            lemma_side_fits(max_texture_size.y as nat, glyph_size.y as nat, by as nat);
            let sx = glyph_size.x * gib.x * bx;
            let sy = glyph_size.y * gib.y * by;
            assert(sx * sy <= max_texture_size.x * max_texture_size.y) by (nonlinear_arith)
                requires sx <= max_texture_size.x, sy <= max_texture_size.y, 0 <= sx, 0 <= sy;
            assert(grid_x <= max_texture_size.x) by (nonlinear_arith)
                requires grid_x == max_texture_size.x / glyph_size.x, glyph_size.x >= 1;
            assert(grid_y <= max_texture_size.y) by (nonlinear_arith)
                requires grid_y == max_texture_size.y / glyph_size.y, glyph_size.y >= 1;
            if bx != 1 && by != 1 {
                assert(bx * by <= max_texture_size.x * max_texture_size.y) by (nonlinear_arith)
                    requires bx <= max_texture_size.x, by <= max_texture_size.y, bx >= 1, by >= 1;
            }
            assert(sx <= max_texture_size.x * max_texture_size.y || sy == 0) by (nonlinear_arith)
                requires sx * sy <= max_texture_size.x * max_texture_size.y, sx >= 0, sy >= 0;
            assert(sx <= max_texture_size.x);
            assert(sy <= max_texture_size.y);
            assert(glyph_size.x * gib.x * 1 == glyph_size.x * gib.x);
            assert(glyph_size.y * gib.y * 1 == glyph_size.y * gib.y);
            assert(glyph_size.x * gib.x <= sx) by (nonlinear_arith) requires sx == glyph_size.x * gib.x * bx, bx >= 1;
            assert(glyph_size.y * gib.y <= sy) by (nonlinear_arith) requires sy == glyph_size.y * gib.y * by, by >= 1;
            assert((glyph_size.x * gib.x) * (glyph_size.y * gib.y) <= sx * sy) by (nonlinear_arith)
                requires glyph_size.x * gib.x <= sx, glyph_size.y * gib.y <= sy;
        }
        let width = glyph_size.x * gib.x;
        let height = glyph_size.y * gib.y;
        let total = width * height;
        let mut data: Vec<u8> = Vec::with_capacity(total);
        let mut i: usize = 0;
        while i < total
            invariant
                i <= total,
                data@ == Seq::new(i as nat, |k: int| 0u8),
            decreases total - i,
        {
            data.push(0);
            proof { assert(data@ =~= Seq::new((i + 1) as nat, |k: int| 0u8)); }
            i = i + 1;
        }
        let modified: Vec<usize> = vec![1];
        let r = GlyphAtlas {
            data,
            glyph_size,
            total_glyphs_in_block: gib,
            total_blocks: Vector2 { x: 1, y: 1 },
            max_blocks: Vector2 { x: bx, y: by },
            free_index: GlyphIndex { block: Vector2 { x: 0, y: 0 }, position: Vector2 { x: 0, y: 0 } },
            total_modified_glyphs_per_block: modified,
        };
        proof {
            assert(r.model().modified =~= seq![1usize]);
            let m = r.model();
            if bx == 1 {
                assert(bx * by == by) by (nonlinear_arith) requires bx == 1;
            } else if by == 1 {
                assert(bx * by == bx) by (nonlinear_arith) requires by == 1;
            }
            assert(m.max_blocks.x * m.max_blocks.y <= usize::MAX);
            assert(m.glyph_size.x * m.glyphs_in_block.x * m.max_blocks.x <= usize::MAX);
            assert(m.glyph_size.y * m.glyphs_in_block.y * m.max_blocks.y <= usize::MAX);
            assert(r.model().texture_size().x == width);
            assert(r.model().texture_size().y == height);
        }
        r
    }

    /// The size of a glyph cell in texels.
    pub fn get_glyph_size(&self) -> (r: Vector2)
        ensures
            r == self.model().glyph_size,
    {
        self.glyph_size
    }

    /// The glyph cells of a block, across and down.
    pub fn get_total_glyphs_in_block(&self) -> (r: Vector2)
        ensures
            r == self.model().glyphs_in_block,
    {
        self.total_glyphs_in_block
    }

    /// The blocks of the texture, across and down.
    pub fn get_total_blocks(&self) -> (r: Vector2)
        ensures
            r == self.model().total_blocks,
    {
        self.total_blocks
    }

    /// The size of the texture in texels.
    pub fn get_texture_size(&self) -> (r: Vector2)
        requires
            self.sized(),
        ensures
            r == self.model().texture_size(),
    {
        proof { self.lemma_sizes_fit(); }
        Vector2 {
            x: self.glyph_size.x * self.total_glyphs_in_block.x * self.total_blocks.x,
            y: self.glyph_size.y * self.total_glyphs_in_block.y * self.total_blocks.y,
        }
    }

    /// The sides of the texture, and the count of blocks, fit in a `usize`.
    proof fn lemma_sizes_fit(&self)
        requires
            self.sized(),
        ensures
            self.glyph_size.x * self.total_glyphs_in_block.x <= usize::MAX,
            self.glyph_size.y * self.total_glyphs_in_block.y <= usize::MAX,
            self.glyph_size.x * self.total_glyphs_in_block.x * self.total_blocks.x <= usize::MAX,
            self.glyph_size.y * self.total_glyphs_in_block.y * self.total_blocks.y <= usize::MAX,
            self.total_blocks.x * self.total_blocks.y <= usize::MAX,
    {
        let m = self.model();
        let ax = m.glyph_size.x * m.glyphs_in_block.x;
        let ay = m.glyph_size.y * m.glyphs_in_block.y;
        assert(ax <= ax * m.total_blocks.x) by (nonlinear_arith) requires m.total_blocks.x >= 1, ax >= 0;
        assert(ay <= ay * m.total_blocks.y) by (nonlinear_arith) requires m.total_blocks.y >= 1, ay >= 0;
        assert(ax * m.total_blocks.x <= ax * m.max_blocks.x) by (nonlinear_arith)
            requires m.total_blocks.x <= m.max_blocks.x, ax >= 0;
        assert(ay * m.total_blocks.y <= ay * m.max_blocks.y) by (nonlinear_arith)
            requires m.total_blocks.y <= m.max_blocks.y, ay >= 0;
        assert(m.total_blocks.x * m.total_blocks.y <= m.max_blocks.x * m.max_blocks.y) by (nonlinear_arith)
            requires 1 <= m.total_blocks.x <= m.max_blocks.x, 1 <= m.total_blocks.y <= m.max_blocks.y;
    }
}

impl GlyphAtlas {
    /// Grows or shrinks the atlas to `total_blocks` blocks (see `TileAtlasModel::resized`).
    fn resize(&mut self, total_blocks: Vector2)
        requires
            old(self).wf(),
            1 <= total_blocks.x <= old(self).model().max_blocks.x,
            1 <= total_blocks.y <= old(self).model().max_blocks.y,
        ensures
            final(self).wf(),
            final(self).model() == old(self).model().resized(total_blocks),
    {
        let ghost m0 = self.model();
        self.total_blocks = total_blocks;
        proof {
            self.lemma_sizes_fit();
            let m = self.model();
            let sx = m.glyph_size.x * m.glyphs_in_block.x;
            let sy = m.glyph_size.y * m.glyphs_in_block.y;
            assert(sx * total_blocks.x * (sy * total_blocks.y) <= (sx * m.max_blocks.x) * (sy * m.max_blocks.y)) by (nonlinear_arith)
                requires total_blocks.x <= m.max_blocks.x, total_blocks.y <= m.max_blocks.y, sx >= 0, sy >= 0;
        }
        let length = total_blocks.x * total_blocks.y;
        let mut modified: Vec<usize> = Vec::with_capacity(length);
        let mut i: usize = 0;
        while i < length
            invariant
                i <= length,
                modified@ == Seq::new(i as nat, |k: int| 1usize),
            decreases length - i,
        {
            modified.push(1);
            proof { assert(modified@ =~= Seq::new((i + 1) as nat, |k: int| 1usize)); }
            i = i + 1;
        }
        self.total_modified_glyphs_per_block = modified;
        let size = self.get_texture_size();
        let texels = size.x * size.y;
        let ghost d0 = self.data@;
        if texels <= self.data.len() {
            self.data.truncate(texels);
        } else {
            while self.data.len() < texels
                invariant
                    self.glyph_size == m0.glyph_size,
                    self.total_glyphs_in_block == m0.glyphs_in_block,
                    self.total_blocks == total_blocks,
                    self.max_blocks == m0.max_blocks,
                    self.free_index == m0.free,
                    self.total_modified_glyphs_per_block@ == Seq::new(length as nat, |k: int| 1usize),
                    d0.len() <= self.data@.len() <= texels,
                    self.data@ == d0 + Seq::new((self.data@.len() - d0.len()) as nat, |k: int| 0u8),
                decreases texels - self.data@.len(),
            {
                let ghost before = self.data@;
                self.data.push(0);
                proof {
                    assert(self.data@ =~= d0 + Seq::new((self.data@.len() - d0.len()) as nat, |k: int| 0u8));
                }
            }
        }
        proof {
            assert(self.model() =~= m0.resized(total_blocks));
        }
    }

    /// The next unused glyph cell, the atlas first growing to take in its
    /// block (see `TileAtlasModel::resized`); none once every block is used.
    pub fn get_free_index(&mut self) -> (r: Option<GlyphIndex>)
        requires
            old(self).wf(),
        ensures
            final(self).wf(),
            ({
                let m = old(self).model();
                let f = m.free;
                if f.block.y >= m.max_blocks.y {
                    r == None::<GlyphIndex> && final(self).model() == m
                } else {
                    let wanted = Vector2 {
                        x: if m.total_blocks.x >= f.block.x + 1 { m.total_blocks.x } else { (f.block.x + 1) as usize },
                        y: if m.total_blocks.y >= f.block.y + 1 { m.total_blocks.y } else { (f.block.y + 1) as usize },
                    };
                    &&& r == Some(f)
                    &&& final(self).model() == (if wanted == m.total_blocks { m } else { m.resized(wanted) })
                }
            }),
    {
        if self.free_index.block.y >= self.max_blocks.y {
            return None;
        }
        let f = self.free_index;
        let wanted = Vector2 {
            x: if self.total_blocks.x >= f.block.x + 1 { self.total_blocks.x } else { f.block.x + 1 },
            y: if self.total_blocks.y >= f.block.y + 1 { self.total_blocks.y } else { f.block.y + 1 },
        };
        if wanted.x != self.total_blocks.x || wanted.y != self.total_blocks.y {
            self.resize(wanted);
        }
        Some(f)
    }

    /// Moves the next unused cell on (see `TileAtlasModel::next_index`);
    /// false, with nothing changed, once every block is used.
    pub fn increment_free_index(&mut self) -> (r: bool)
        requires
            old(self).wf(),
        ensures
            final(self).wf(),
            r == (old(self).model().free.block.y < old(self).model().max_blocks.y),
            final(self).model() == (match old(self).model().next_index(old(self).model().free) {
                Some(i) => TileAtlasModel { free: i, ..old(self).model() },
                None => old(self).model(),
            }),
    {
        if self.free_index.block.y >= self.max_blocks.y {
            return false;
        }
        let mut f = self.free_index;
        f.position.x = f.position.x + 1;
        if f.position.x >= self.total_glyphs_in_block.x {
            f.position.x = 0;
            f.position.y = f.position.y + 1;
        }
        if f.position.y >= self.total_glyphs_in_block.y {
            f.position = Vector2 { x: 0, y: 0 };
            f.block.x = f.block.x + 1;
        }
        if f.block.x >= self.max_blocks.x {
            f.block.x = 0;
            f.block.y = f.block.y + 1;
        }
        self.free_index = f;
        proof { assert(self.model() =~= TileAtlasModel { free: f, ..old(self).model() }); }
        true
    }

    /// Counts no block as changed.
    pub fn clear_modified_count(&mut self)
        requires
            old(self).wf(),
        ensures
            final(self).wf(),
            final(self).model() == (TileAtlasModel {
                modified: Seq::new(old(self).model().modified.len(), |i: int| 0usize),
                ..old(self).model()
            }),
    {
        let n = self.total_modified_glyphs_per_block.len();
        let mut i: usize = 0;
        while i < n
            invariant
                i <= n,
                n == self.total_modified_glyphs_per_block@.len(),
                self.data@ == old(self).data@,
                self.glyph_size == old(self).glyph_size,
                self.total_glyphs_in_block == old(self).total_glyphs_in_block,
                self.total_blocks == old(self).total_blocks,
                self.max_blocks == old(self).max_blocks,
                self.free_index == old(self).free_index,
                forall|k: int| 0 <= k < i ==> #[trigger] self.total_modified_glyphs_per_block@[k] == 0usize,
            decreases n - i,
        {
            self.total_modified_glyphs_per_block.set(i, 0);
            i = i + 1;
        }
        proof {
            assert(self.model().modified =~= Seq::new(old(self).model().modified.len(), |i: int| 0usize));
            assert(self.model() =~= TileAtlasModel {
                modified: Seq::new(old(self).model().modified.len(), |i: int| 0usize),
                ..old(self).model()
            });
        }
    }

    /// The blocks written into since the counts were last cleared (see
    /// `TileAtlasModel::modified_blocks`).
    pub fn get_modified_blocks(&self) -> (r: Vec<Vector2>)
        requires
            self.wf(),
        ensures
            r@ == self.model().modified_blocks(self.model().modified.len()),
    {
        let counts = &self.total_modified_glyphs_per_block;
        let width = self.total_blocks.x;
        let mut out: Vec<Vector2> = Vec::new();
        let mut i: usize = 0;
        while i < counts.len()
            invariant
                i <= counts@.len(),
                counts@ == self.model().modified,
                width == self.model().total_blocks.x,
                width >= 1,
                out@ == self.model().modified_blocks(i as nat),
            decreases counts@.len() - i,
        {
            if counts[i] > 0 {
                out.push(Vector2 { x: i % width, y: i / width });
            }
            i = i + 1;
        }
        out
    }
}

/// Where the glyph cells of a block lie in the texture: a glyph cell `(px,
/// py)` of block `(kx, ky)`, for `gx` by `gy` texel glyphs, `bx` by `by`
/// glyphs in a block and `tx` by `ty` blocks, lies inside its block, and the
/// block inside the texture.
proof fn lemma_glyph_span(gx: nat, gy: nat, bx: nat, by: nat, tx: nat, ty: nat, kx: nat, ky: nat, px: nat, py: nat)
    requires
        gx >= 1,
        gy >= 1,
        kx < tx,
        ky < ty,
        px < bx,
        py < by,
    ensures
        ({
            let r = bx * gx;
            let s = bx * by * gx * gy;
            let n = kx + ky * tx;
            let inner = py * gy * r + px * gx;
            let len = (gx * bx * tx) * (gy * by * ty);
            &&& r >= gx
            &&& 0 <= inner
            &&& inner + (gy - 1) * r + gx <= s
            &&& n * s + s <= len
            &&& gy * r <= s
        }),
{
    let r = bx * gx;
    let s = bx * by * gx * gy;
    let n = kx + ky * tx;
    assert(r >= gx) by (nonlinear_arith) requires r == bx * gx, bx >= 1;
    assert((px + 1) * gx <= r) by (nonlinear_arith) requires r == bx * gx, px + 1 <= bx;
    assert(px * gx + gx == (px + 1) * gx) by (nonlinear_arith);
    assert((py + 1) * gy * r <= by * gy * r) by (nonlinear_arith) requires py + 1 <= by, gy >= 0, r >= 0;
    assert(by * gy * r == s) by (nonlinear_arith) requires r == bx * gx, s == bx * by * gx * gy;
    assert(py * gy * r + (gy - 1) * r + r == (py + 1) * gy * r) by (nonlinear_arith) requires gy >= 1;
    assert(gy * r <= s) by (nonlinear_arith) requires s == by * gy * r, by >= 1, gy >= 0, r >= 0;
    assert(n + 1 <= tx * ty) by (nonlinear_arith) requires n == kx + ky * tx, kx < tx, ky < ty;
    assert((n + 1) * s <= tx * ty * s) by (nonlinear_arith) requires n + 1 <= tx * ty, s >= 0;
    assert((gx * bx * tx) * (gy * by * ty) == tx * ty * s) by (nonlinear_arith) requires s == bx * by * gx * gy;
    assert(n * s + s == (n + 1) * s) by (nonlinear_arith);
    assert(0 <= py * gy * r + px * gx) by (nonlinear_arith);
}

impl GlyphAtlas {
    /// Writes the glyph `src`, rows of `glyph_size.x` texels, into glyph cell
    /// `index` (see `TileAtlasModel::with_glyph`), and counts one more change
    /// to its block (the count stops at its largest value).
    pub fn write_glyph(&mut self, index: GlyphIndex, src: &[u8])
        requires
            old(self).wf(),
            index.block.x < old(self).model().total_blocks.x,
            index.block.y < old(self).model().total_blocks.y,
            index.position.x < old(self).model().glyphs_in_block.x,
            index.position.y < old(self).model().glyphs_in_block.y,
            src@.len() == old(self).model().glyph_size.x * old(self).model().glyph_size.y,
        ensures
            final(self).wf(),
            ({
                let m = old(self).model();
                let n = m.block_number(index.block);
                final(self).model() == TileAtlasModel {
                    data: m.with_glyph(index, src@),
                    modified: m.modified.update(n, if m.modified[n] < usize::MAX { (m.modified[n] + 1) as usize } else { m.modified[n] }),
                    ..m
                }
            }),
    {
        let ghost m0 = self.model();
        let ghost d0 = self.data@;
        let gs = self.glyph_size;
        let gib = self.total_glyphs_in_block;
        let tb = self.total_blocks;
        proof {
            lemma_glyph_span(gs.x as nat, gs.y as nat, gib.x as nat, gib.y as nat, tb.x as nat, tb.y as nat,
                index.block.x as nat, index.block.y as nat, index.position.x as nat, index.position.y as nat);
            self.lemma_sizes_fit();
            assert(index.block.x + index.block.y * tb.x < tb.x * tb.y) by (nonlinear_arith)
                requires index.block.x < tb.x, index.block.y < tb.y;
            assert(gib.x * gib.y * gs.x * gs.y >= 0) by (nonlinear_arith);
            assert(gib.x * gib.y <= gib.x * gib.y * gs.x <= gib.x * gib.y * gs.x * gs.y) by (nonlinear_arith)
                requires gs.x >= 1, gs.y >= 1;
            assert(0 <= (index.block.x + index.block.y * tb.x) * (gib.x * gib.y * gs.x * gs.y)) by (nonlinear_arith);
            assert(self.data.len() == self.data@.len());
            assert(index.position.y * gs.y * (gib.x * gs.x) >= 0) by (nonlinear_arith);
            assert(index.position.x * gs.x >= 0) by (nonlinear_arith);
            assert(src.len() == src@.len());
            assert(gib.x * gs.x >= 1) by (nonlinear_arith) requires gib.x >= 1, gs.x >= 1;
            assert(index.position.y * gs.y <= index.position.y * gs.y * (gib.x * gs.x)) by (nonlinear_arith)
                requires gib.x * gs.x >= 1;
        }
        let row_stride = gib.x * gs.x;
        let block_stride = gib.x * gib.y * gs.x * gs.y;
        let block_number = index.block.x + index.block.y * tb.x;
        let base = block_number * block_stride + index.position.y * gs.y * row_stride + index.position.x * gs.x;
        let ghost len = d0.len() as int;
        let ghost r = row_stride as int;
        let mut y: usize = 0;
        while y < gs.y
            invariant
                self.glyph_size == gs,
                self.total_glyphs_in_block == gib,
                self.total_blocks == tb,
                self.max_blocks == m0.max_blocks,
                self.free_index == m0.free,
                self.total_modified_glyphs_per_block@ == m0.modified,
                m0.data == d0,
                len == d0.len(),
                len <= usize::MAX,
                r == row_stride,
                r >= gs.x >= 1,
                base == m0.glyph_base(index),
                base + (gs.y - 1) * r + gs.x <= len,
                gs.x * gs.y <= usize::MAX,
                src@.len() == gs.x * gs.y,
                y <= gs.y,
                self.data@ == Seq::new(len as nat, |k: int| {
                    let d = k - base;
                    if 0 <= d && d / r < y && d % r < gs.x { src@[(d / r) * gs.x + d % r] } else { d0[k] }
                }),
            decreases gs.y - y,
        {
            let mut x: usize = 0;
            proof {
                assert(y * r + gs.x <= (gs.y - 1) * r + gs.x) by (nonlinear_arith) requires y <= gs.y - 1, r >= 0;
                assert(y * gs.x + gs.x <= gs.x * gs.y) by (nonlinear_arith) requires y + 1 <= gs.y;
            }
            while x < gs.x
                invariant
                    self.glyph_size == gs,
                    self.total_glyphs_in_block == gib,
                    self.total_blocks == tb,
                    self.max_blocks == m0.max_blocks,
                    self.free_index == m0.free,
                    self.total_modified_glyphs_per_block@ == m0.modified,
                    len == d0.len(),
                    len <= usize::MAX,
                    r == row_stride,
                    r >= gs.x >= 1,
                    base + y * r + gs.x <= len,
                    y * gs.x + gs.x <= gs.x * gs.y,
                    gs.x * gs.y <= usize::MAX,
                    src@.len() == gs.x * gs.y,
                    y < gs.y,
                    x <= gs.x,
                    self.data@ == Seq::new(len as nat, |k: int| {
                        let d = k - base;
                        if 0 <= d && (d / r < y || (d / r == y && d % r < x)) && d % r < gs.x {
                            src@[(d / r) * gs.x + d % r]
                        } else {
                            d0[k]
                        }
                    }),
                decreases gs.x - x,
            {
                let ghost before = self.data@;
                let k0 = base + y * row_stride + x;
                let v = src[y * gs.x + x];
                self.data.set(k0, v);
                proof {
                    let target = Seq::new(len as nat, |k: int| {
                        let d = k - base;
                        if 0 <= d && (d / r < y || (d / r == y && d % r < x + 1)) && d % r < gs.x {
                            src@[(d / r) * gs.x + d % r]
                        } else {
                            d0[k]
                        }
                    });
                    vstd::arithmetic::div_mod::lemma_fundamental_div_mod_converse(y * r + x, r, y as int, x as int);
                    assert(y * r + x == r * y + x) by (nonlinear_arith);
                    assert forall|k: int| 0 <= k < len implies #[trigger] self.data@[k] == target[k] by {
                        if k != k0 {
                            let d = k - base;
                            if 0 <= d {
                                vstd::arithmetic::div_mod::lemma_fundamental_div_mod(d, r);
                                if d / r == y && d % r == x {
                                    assert(d == r * y + x);
                                    assert(false);
                                }
                            }
                        }
                    }
                    assert(self.data@ =~= target);
                }
                x = x + 1;
            }
            proof {
                let target = Seq::new(len as nat, |k: int| {
                    let d = k - base;
                    if 0 <= d && d / r < y + 1 && d % r < gs.x { src@[(d / r) * gs.x + d % r] } else { d0[k] }
                });
                assert(self.data@ =~= target);
            }
            y = y + 1;
        }
        let count = self.total_modified_glyphs_per_block[block_number];
        self.total_modified_glyphs_per_block.set(block_number, count.saturating_add(1));
        proof {
            assert(self.data@ =~= m0.with_glyph(index, src@));
        }
    }

    /// The texels of block `block`: its texel rows one after another.
    pub fn get_block(&self, block: Vector2) -> (r: &[u8])
        requires
            self.wf(),
            block.x < self.model().total_blocks.x,
            block.y < self.model().total_blocks.y,
        ensures
            ({
                let m = self.model();
                let start = m.block_number(block) * m.block_stride();
                r@ == m.data.subrange(start, start + m.block_stride())
            }),
    {
        let gs = self.glyph_size;
        let gib = self.total_glyphs_in_block;
        let tb = self.total_blocks;
        proof {
            lemma_glyph_span(gs.x as nat, gs.y as nat, 1, 1, tb.x as nat, tb.y as nat, block.x as nat, block.y as nat, 0, 0);
            self.lemma_sizes_fit();
            if gib.x >= 1 && gib.y >= 1 {
                lemma_glyph_span(gs.x as nat, gs.y as nat, gib.x as nat, gib.y as nat, tb.x as nat, tb.y as nat,
                    block.x as nat, block.y as nat, 0, 0);
            } else {
                assert(gib.x * gib.y * gs.x * gs.y == 0) by (nonlinear_arith) requires gib.x == 0 || gib.y == 0;
            }
            assert(gib.x * gib.y <= gib.x * gib.y * gs.x <= gib.x * gib.y * gs.x * gs.y) by (nonlinear_arith)
                requires gs.x >= 1, gs.y >= 1;
            assert(self.data.len() == self.data@.len());
            assert(block.x + block.y * tb.x < tb.x * tb.y) by (nonlinear_arith) requires block.x < tb.x, block.y < tb.y;
            assert(gib.x * gib.y * gs.x * gs.y >= 0) by (nonlinear_arith);
            assert(0 <= (block.x + block.y * tb.x) * (gib.x * gib.y * gs.x * gs.y)) by (nonlinear_arith);
            if gib.x == 0 || gib.y == 0 {
                assert((block.x + block.y * tb.x) * (gib.x * gib.y * gs.x * gs.y) == 0) by (nonlinear_arith)
                    requires gib.x * gib.y * gs.x * gs.y == 0;
            }
        }
        let block_stride = gib.x * gib.y * gs.x * gs.y;
        let block_number = block.x + block.y * tb.x;
        let start = block_number * block_stride;
        vstd::slice::slice_subrange(self.data.as_slice(), start, start + block_stride)
    }
}

/// A glyph written into a cell reads back from that cell: the texel in row
/// `y`, column `x` of the cell is texel `y * glyph_size.x + x` of the glyph.
pub proof fn lemma_written_glyph_reads_back(m: TileAtlasModel, index: GlyphIndex, src: Seq<u8>, y: nat, x: nat)
    requires
        m.row_stride() >= m.glyph_size.x,
        y < m.glyph_size.y,
        x < m.glyph_size.x,
        0 <= m.glyph_base(index) + y * m.row_stride() + x < m.data.len(),
    ensures
        m.with_glyph(index, src)[m.glyph_base(index) + y * m.row_stride() + x] == src[y * m.glyph_size.x + x],
{
    let r = m.row_stride();
    assert(y * r + x == r * y + x) by (nonlinear_arith);
    vstd::arithmetic::div_mod::lemma_fundamental_div_mod_converse(y * r + x, r, y as int, x as int);
}

/// Writing a glyph changes only texels of its own block: every texel before
/// the block, or from the next block on, stays as it was.
pub proof fn lemma_write_stays_in_block(m: TileAtlasModel, index: GlyphIndex, src: Seq<u8>, k: int)
    requires
        m.glyph_size.x >= 1,
        m.glyph_size.y >= 1,
        index.block.x < m.total_blocks.x,
        index.block.y < m.total_blocks.y,
        index.position.x < m.glyphs_in_block.x,
        index.position.y < m.glyphs_in_block.y,
        0 <= k < m.data.len(),
        k < m.block_number(index.block) * m.block_stride()
            || k >= (m.block_number(index.block) + 1) * m.block_stride(),
    ensures
        m.with_glyph(index, src)[k] == m.data[k],
{
    let g = m.glyph_size;
    let b = m.glyphs_in_block;
    let t = m.total_blocks;
    lemma_glyph_span(g.x as nat, g.y as nat, b.x as nat, b.y as nat, t.x as nat, t.y as nat,
        index.block.x as nat, index.block.y as nat, index.position.x as nat, index.position.y as nat);
    let r = m.row_stride();
    let s = m.block_stride();
    let n = m.block_number(index.block);
    let inner = index.position.y * g.y * r + index.position.x * g.x;
    assert(m.glyph_base(index) == n * s + inner);
    let d = k - m.glyph_base(index);
    if 0 <= d && d / r < g.y && d % r < g.x {
        vstd::arithmetic::div_mod::lemma_fundamental_div_mod(d, r);
        assert(r * (d / r) <= r * (g.y - 1)) by (nonlinear_arith) requires d / r <= g.y - 1, r >= 0;
        assert(d < (g.y - 1) * r + g.x) by (nonlinear_arith)
            requires d == r * (d / r) + d % r, r * (d / r) <= r * (g.y - 1), d % r < g.x;
        assert((n + 1) * s == n * s + s) by (nonlinear_arith);
        assert(false);
    }
}

impl TileAtlasModel {
    /// The blocks the atlas needs for its free cell: as many as it has, or
    /// enough to reach the free cell's block.
    pub open spec fn wanted_blocks(self) -> Vector2 {
        let f = self.free;
        Vector2 {
            x: if self.total_blocks.x >= f.block.x + 1 { self.total_blocks.x } else { (f.block.x + 1) as usize },
            y: if self.total_blocks.y >= f.block.y + 1 { self.total_blocks.y } else { (f.block.y + 1) as usize },
        }
    }

    /// The free cell handed out, and the atlas grown to take in its block
    /// with the free cell moved on; none once every block is used.
    pub open spec fn allocated(self) -> Option<(GlyphIndex, TileAtlasModel)> {
        if self.free.block.y >= self.max_blocks.y {
            None
        } else {
            let grown = if self.wanted_blocks() == self.total_blocks { self } else { self.resized(self.wanted_blocks()) };
            Some((self.free, TileAtlasModel { free: grown.next_index(self.free).unwrap(), ..grown }))
        }
    }
}

impl GlyphAtlas {
    /// Hands out the next unused glyph cell, growing the atlas to take in its
    /// block, and moves the free cell on (see `TileAtlasModel::allocated`).
    pub fn get_new_free_index(&mut self) -> (r: Option<GlyphIndex>)
        requires
            old(self).wf(),
        ensures
            final(self).wf(),
            match old(self).model().allocated() {
                Some((i, m)) => r == Some(i) && final(self).model() == m,
                None => r == None::<GlyphIndex> && final(self).model() == old(self).model(),
            },
            final(self).model().glyphs_in_block == old(self).model().glyphs_in_block,
            final(self).model().glyph_size == old(self).model().glyph_size,
            old(self).model().total_blocks.x <= final(self).model().total_blocks.x,
            old(self).model().total_blocks.y <= final(self).model().total_blocks.y,
            r matches Some(i) ==> {
                &&& i.block.x < final(self).model().total_blocks.x
                &&& i.block.y < final(self).model().total_blocks.y
            },
    {
        let r = self.get_free_index();
        if r.is_some() {
            let _moved = self.increment_free_index();
        }
        r
    }
}

impl TileAtlasModel {
    /// The place of cell `i` in the order cells are handed out.
    pub open spec fn rank(self, i: GlyphIndex) -> int {
        ((i.block.y * self.max_blocks.x + i.block.x) * self.glyphs_in_block.y + i.position.y) * self.glyphs_in_block.x
            + i.position.x
    }

    /// How many glyph cells the atlas offers over all its blocks.
    pub open spec fn capacity(self) -> int {
        self.max_blocks.x * self.max_blocks.y * self.glyphs_in_block.y * self.glyphs_in_block.x
    }
}

/// Cells are handed out one after another: the cell after a cell in a block
/// that may still be used comes next in the order, lies in a block column
/// that exists and in its block, and may be used exactly when the order has
/// not reached the capacity.
pub proof fn lemma_next_index_rank(m: TileAtlasModel, i: GlyphIndex)
    requires
        m.glyphs_in_block.x >= 1,
        m.glyphs_in_block.y >= 1,
        m.max_blocks.x >= 1,
        i.block.x < m.max_blocks.x,
        i.block.y < m.max_blocks.y,
        i.position.x < m.glyphs_in_block.x,
        i.position.y < m.glyphs_in_block.y,
    ensures
        m.next_index(i) matches Some(j) && {
            &&& m.rank(j) == m.rank(i) + 1
            &&& j.block.x < m.max_blocks.x
            &&& j.position.x < m.glyphs_in_block.x
            &&& j.position.y < m.glyphs_in_block.y
            &&& (j.block.y < m.max_blocks.y <==> m.rank(j) < m.capacity())
        },
{
    let bx = m.glyphs_in_block.x as int;
    let by = m.glyphs_in_block.y as int;
    let mx = m.max_blocks.x as int;
    let my = m.max_blocks.y as int;
    let j = m.next_index(i).unwrap();
    let kx = i.block.x as int;
    let ky = i.block.y as int;
    let px = i.position.x as int;
    let py = i.position.y as int;
    if px + 1 < bx {
        assert(m.rank(j) == m.rank(i) + 1);
    } else if py + 1 < by {
        assert(m.rank(j) == ((ky * mx + kx) * by + py + 1) * bx);
        assert(((ky * mx + kx) * by + py + 1) * bx == ((ky * mx + kx) * by + py) * bx + bx) by (nonlinear_arith);
    } else if kx + 1 < mx {
        assert(m.rank(j) == ((ky * mx + kx + 1) * by) * bx);
        assert(((ky * mx + kx + 1) * by) * bx == ((ky * mx + kx) * by + (by - 1)) * bx + (bx - 1) + 1) by (nonlinear_arith);
    } else {
        assert(m.rank(j) == (((ky + 1) * mx) * by) * bx);
        assert((((ky + 1) * mx) * by) * bx == ((ky * mx + (mx - 1)) * by + (by - 1)) * bx + (bx - 1) + 1) by (nonlinear_arith);
    }
    let jy = j.block.y as int;
    let jx = j.block.x as int;
    let jpx = j.position.x as int;
    let jpy = j.position.y as int;
    assert(m.capacity() == my * mx * by * bx) by (nonlinear_arith)
        requires m.capacity() == mx * my * by * bx;
    if jy < my {
        assert(((jy * mx + jx) * by + jpy) * bx + jpx < my * mx * by * bx) by (nonlinear_arith)
            requires jy < my, jx < mx, jpy < by, jpx < bx, jy >= 0, jx >= 0, jpy >= 0, jpx >= 0;
    } else {
        assert(((jy * mx + jx) * by + jpy) * bx + jpx >= my * mx * by * bx) by (nonlinear_arith)
            requires jy >= my, jx >= 0, jpy >= 0, jpx >= 0, bx >= 1, by >= 1, mx >= 1;
    }
}

impl GlyphAtlas {
    /// The bounds that a well-formed atlas keeps: at least one glyph texel and
    /// one block each way, no more blocks than allowed, the free cell in an
    /// allowed block column, and the texture and counts sized to the blocks.
    pub proof fn lemma_model_bounds(&self)
        requires
            self.wf(),
        ensures
            self.model().glyph_size.x >= 1,
            self.model().glyph_size.y >= 1,
            1 <= self.model().total_blocks.x <= self.model().max_blocks.x,
            1 <= self.model().total_blocks.y <= self.model().max_blocks.y,
            self.model().free.block.x < self.model().max_blocks.x,
            self.model().free.block.y <= self.model().max_blocks.y,
            self.model().data.len() == self.model().texture_size().x * self.model().texture_size().y,
            self.model().modified.len() == self.model().total_blocks.x * self.model().total_blocks.y,
    {
    }
}

} // verus!
