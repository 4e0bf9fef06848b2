//! A texture of glyph images laid out on a grid of equal cells.
use vstd::prelude::*;
use crate::primitives::Vector2;

verus! {

/// One texel of a glyph image: its coverage.
#[derive(Clone, Copy, Debug, Default, PartialEq, Eq, Structural)]
pub struct GlyphType {
    pub data: u8,
}

/// Where a bitmap goes inside a glyph cell, and how large it is.
#[derive(Clone, Copy, Debug, PartialEq, Eq, Structural)]
pub struct BitmapPlacement {
    pub offset: Vector2,
    pub size: Vector2,
}

/// Texel (`x`, `y`) of a glyph cell after a bitmap was drawn into it: the
/// bitmap texel where the placement covers the position, nothing elsewhere.
/// The bitmap holds rows of `placement.size.x` texels.
pub open spec fn glyph_texel(x: int, y: int, bitmap: Seq<u8>, placement: BitmapPlacement) -> GlyphType {
    let o = placement.offset;
    let s = placement.size;
    if o.x <= x < o.x + s.x && o.y <= y < o.y + s.y {
        GlyphType { data: bitmap[(y - o.y) * s.x + (x - o.x)] }
    } else {
        GlyphType { data: 0 }
    }
}

/// `texture` after a bitmap was drawn into the glyph cell at grid position
/// `position`, for cells of `glyph_size` texels.
pub open spec fn glyph_drawn(texture: Seq<Seq<GlyphType>>, glyph_size: Vector2, position: Vector2, bitmap: Seq<u8>, placement: BitmapPlacement) -> Seq<Seq<GlyphType>> {
    let x0 = position.x * glyph_size.x;
    let y0 = position.y * glyph_size.y;
    Seq::new(texture.len(), |r: int| Seq::new(texture[r].len(), |c: int|
        if y0 <= r < y0 + glyph_size.y && x0 <= c < x0 + glyph_size.x {
            glyph_texel(c - x0, r - y0, bitmap, placement)
        } else {
            texture[r][c]
        }))
}

/// The texture rows as plain sequences.
pub open spec fn texture_of(rows: Seq<Vec<GlyphType>>) -> Seq<Seq<GlyphType>> {
    Seq::new(rows.len(), |r: int| rows[r]@)
}

pub struct GlyphAtlas {
    rows: Vec<Vec<GlyphType>>,
    glyph_size: Vector2,
    grid_size: Vector2,
    texture_size: Vector2,
}

impl GlyphAtlas {
    /// The texture, row after row of texels.
    pub closed spec fn texture(&self) -> Seq<Seq<GlyphType>> {
        texture_of(self.rows@)
    }

    pub closed spec fn spec_glyph_size(&self) -> Vector2 {
        self.glyph_size
    }

    pub closed spec fn spec_grid_size(&self) -> Vector2 {
        self.grid_size
    }

    pub closed spec fn spec_texture_size(&self) -> Vector2 {
        self.texture_size
    }

    pub closed spec fn wf(&self) -> bool {
        &&& self.texture_size.x == self.grid_size.x * self.glyph_size.x
        &&& self.texture_size.y == self.grid_size.y * self.glyph_size.y
        &&& self.rows@.len() == self.texture_size.y
        &&& forall|r: int| 0 <= r < self.rows@.len() ==> (#[trigger] self.rows@[r])@.len() == self.texture_size.x
    }

    /// A blank texture for a grid of `grid_size` cells of `glyph_size` texels.
    pub fn new(glyph_size: Vector2, grid_size: Vector2) -> (r: Self)
        requires
            grid_size.x * glyph_size.x <= usize::MAX,
            grid_size.y * glyph_size.y <= usize::MAX,
        ensures
            r.wf(),
            r.spec_glyph_size() == glyph_size,
            r.spec_grid_size() == grid_size,
            r.spec_texture_size() == (Vector2 { x: (grid_size.x * glyph_size.x) as usize, y: (grid_size.y * glyph_size.y) as usize }),
            r.texture() == Seq::new((grid_size.y * glyph_size.y) as nat, |y: int|
                Seq::new((grid_size.x * glyph_size.x) as nat, |x: int| GlyphType { data: 0 })),
    {
        let width = grid_size.x * glyph_size.x;
        let height = grid_size.y * glyph_size.y;
        let mut rows: Vec<Vec<GlyphType>> = Vec::with_capacity(height);
        let mut y: usize = 0;
        while y < height
            invariant
                y <= height,
                rows@.len() == y,
                forall|k: int| 0 <= k < y ==> (#[trigger] rows@[k])@ == Seq::new(width as nat, |x: int| GlyphType { data: 0 }),
            decreases height - y,
        {
            let mut row: Vec<GlyphType> = Vec::with_capacity(width);
            let mut x: usize = 0;
            while x < width
                invariant
                    x <= width,
                    row@ == Seq::new(x as nat, |i: int| GlyphType { data: 0 }),
                decreases width - x,
            {
                row.push(GlyphType { data: 0 });
                x = x + 1;
            }
            rows.push(row);
            y = y + 1;
        }
        let r = GlyphAtlas { rows, glyph_size, grid_size, texture_size: Vector2 { x: width, y: height } };
        proof {
            assert(r.texture() =~= Seq::new(height as nat, |y: int| Seq::new(width as nat, |x: int| GlyphType { data: 0 })));
        }
        r
    }

    /// The grid size in cells.
    pub fn get_grid_size(&self) -> (r: Vector2)
        ensures
            r == self.spec_grid_size(),
    {
        self.grid_size
    }

    /// The size of a cell in texels.
    pub fn get_glyph_size(&self) -> (r: Vector2)
        ensures
            r == self.spec_glyph_size(),
    {
        self.glyph_size
    }

    /// The texture size in texels.
    pub fn get_texture_size(&self) -> (r: Vector2)
        ensures
            r == self.spec_texture_size(),
    {
        self.texture_size
    }

    /// The texels, row after row.
    pub fn get_texture_view(&self) -> (r: Vec<GlyphType>)
        ensures
            r@ == self.texture().flatten(),
    {
        let mut out: Vec<GlyphType> = Vec::new();
        let mut k: usize = 0;
        while k < self.rows.len()
            invariant
                k <= self.rows@.len(),
                out@ == texture_of(self.rows@).take(k as int).flatten(),
            decreases self.rows@.len() - k,
        {
            let ghost before = out@;
            let row = &self.rows[k];
            let mut i: usize = 0;
            while i < row.len()
                invariant
                    i <= row@.len(),
                    out@ == before + row@.take(i as int),
                decreases row@.len() - i,
            {
                out.push(row[i]);
                proof { assert(out@ =~= before + row@.take(i + 1)); }
                i = i + 1;
            }
            proof {
                let t = texture_of(self.rows@);
                assert(row@.take(row@.len() as int) =~= row@);
                assert(t.take(k + 1) =~= t.take(k as int).push(t[k as int]));
                t.take(k as int).lemma_flatten_push(t[k as int]);
            }
            k = k + 1;
        }
        proof { assert(texture_of(self.rows@).take(self.rows@.len() as int) =~= texture_of(self.rows@)); }
        out
    }

    /// Draws `bitmap` into the glyph cell at grid position `position`: the
    /// cell is cleared and the bitmap, rows of `placement.size.x` texels, is
    /// put at `placement.offset` inside it.
    pub fn write_glyph_bitmap(&mut self, position: Vector2, bitmap: &[u8], placement: BitmapPlacement)
        requires
            old(self).wf(),
            position.x < old(self).spec_grid_size().x,
            position.y < old(self).spec_grid_size().y,
            placement.offset.x + placement.size.x <= old(self).spec_glyph_size().x,
            placement.offset.y + placement.size.y <= old(self).spec_glyph_size().y,
            placement.size.x * placement.size.y <= bitmap@.len(),
        ensures
            final(self).wf(),
            final(self).spec_glyph_size() == old(self).spec_glyph_size(),
            final(self).spec_grid_size() == old(self).spec_grid_size(),
            final(self).spec_texture_size() == old(self).spec_texture_size(),
            final(self).texture() == glyph_drawn(old(self).texture(), old(self).spec_glyph_size(), position, bitmap@, placement),
    {
        let ghost t0 = self.texture();
        let gw = self.glyph_size.x;
        let gh = self.glyph_size.y;
        let ghost gx = self.grid_size.x;
        let ghost gy = self.grid_size.y;
        proof {
            assert(position.x * gw + gw <= gx * gw) by (nonlinear_arith)
                requires position.x < gx;
            assert(position.y * gh + gh <= gy * gh) by (nonlinear_arith)
                requires position.y < gy;
        }
        let x0 = position.x * gw;
        let y0 = position.y * gh;
        let o = placement.offset;
        let s = placement.size;
        let blen = bitmap.len();
        proof {
            assert forall|rr: int| 0 <= rr < t0.len() implies
                Seq::new((#[trigger] t0[rr]).len(), |c: int| t0[rr][c]) =~= t0[rr] by {}
            assert(t0 =~~= Seq::new(t0.len(), |rr: int| Seq::new(t0[rr].len(), |c: int|
                if y0 <= rr < y0 + 0 && x0 <= c < x0 + gw { glyph_texel(c - x0, rr - y0, bitmap@, placement) } else { t0[rr][c] })));
        }
        let mut ly: usize = 0;
        while ly < gh
            invariant
                self.wf(),
                self.glyph_size.x == gw,
                self.glyph_size.y == gh,
                self.grid_size.x == gx,
                self.grid_size.y == gy,
                x0 == position.x * gw,
                y0 == position.y * gh,
                x0 + gw <= self.texture_size.x,
                y0 + gh <= self.texture_size.y,
                o.x + s.x <= gw,
                o.y + s.y <= gh,
                s.x * s.y <= bitmap@.len(),
                bitmap@.len() == blen,
                o == placement.offset,
                s == placement.size,
                ly <= gh,
                t0.len() == self.texture_size.y,
                forall|r: int| 0 <= r < t0.len() ==> (#[trigger] t0[r]).len() == self.texture_size.x,
                self.texture() == Seq::new(t0.len(), |r: int| Seq::new(t0[r].len(), |c: int|
                    if y0 <= r < y0 + ly && x0 <= c < x0 + gw {
                        glyph_texel(c - x0, r - y0, bitmap@, placement)
                    } else {
                        t0[r][c]
                    })),
            decreases gh - ly,
        {
            let r = y0 + ly;
            let ghost before = self.texture();
            proof {
                assert(Seq::new(before[r as int].len(), |c: int|
                    if x0 <= c < x0 + 0 { glyph_texel(c - x0, ly as int, bitmap@, placement) } else { before[r as int][c] })
                    =~= before[r as int]);
                assert(before.update(r as int, before[r as int]) =~= before);
            }
            let mut lx: usize = 0;
            while lx < gw
                invariant
                    self.wf(),
                    self.glyph_size.x == gw,
                    self.glyph_size.y == gh,
                    self.grid_size.x == gx,
                    self.grid_size.y == gy,
                    x0 + gw <= self.texture_size.x,
                    r < self.texture_size.y,
                    r == y0 + ly,
                    ly < gh,
                    o.x + s.x <= gw,
                    o.y + s.y <= gh,
                    s.x * s.y <= bitmap@.len(),
                    bitmap@.len() == blen,
                    o == placement.offset,
                    s == placement.size,
                    lx <= gw,
                    before.len() == self.texture_size.y,
                    forall|k: int| 0 <= k < before.len() ==> (#[trigger] before[k]).len() == self.texture_size.x,
                    self.texture() == before.update(r as int, Seq::new(before[r as int].len(), |c: int|
                        if x0 <= c < x0 + lx { glyph_texel(c - x0, ly as int, bitmap@, placement) } else { before[r as int][c] })),
                decreases gw - lx,
            {
                let ghost expected = glyph_texel(lx as int, ly as int, bitmap@, placement);
                let value = if o.x <= lx && lx < o.x + s.x && o.y <= ly && ly < o.y + s.y {
                    proof {
                        assert((ly - o.y) * s.x + (lx - o.x) < s.x * s.y) by (nonlinear_arith)
                            requires ly - o.y < s.y, lx - o.x < s.x, ly >= o.y, lx >= o.x;
                    }
                    let i = (ly - o.y) * s.x + (lx - o.x);
                    let v = GlyphType { data: *vstd::slice::slice_index_get(bitmap, i) };
                    proof {
                        assert(i as int == (ly - o.y) * s.x + (lx - o.x));
                        assert(v == expected);
                    }
                    v
                } else {
                    proof { assert(GlyphType { data: 0 } == expected); }
                    GlyphType { data: 0 }
                };
                proof { assert(value == expected); }
                let ghost t1 = self.texture();
                self.rows[r].set(x0 + lx, value);
                proof {
                    assert(self.texture() =~= t1.update(r as int, t1[r as int].update(x0 + lx, value)));
                    assert(value == glyph_texel(lx as int, ly as int, bitmap@, placement));
                    assert(self.texture() =~~= before.update(r as int, Seq::new(before[r as int].len(), |c: int|
                        if x0 <= c < x0 + lx + 1 { glyph_texel(c - x0, ly as int, bitmap@, placement) } else { before[r as int][c] })));
                }
                lx = lx + 1;
            }
            proof {
                assert forall|rr: int| 0 <= rr < t0.len() && rr != r implies #[trigger] self.texture()[rr] == before[rr] by {}
                assert(self.texture() =~~= Seq::new(t0.len(), |rr: int| Seq::new(t0[rr].len(), |c: int|
                    if y0 <= rr < y0 + ly + 1 && x0 <= c < x0 + gw {
                        glyph_texel(c - x0, rr - y0, bitmap@, placement)
                    } else {
                        t0[rr][c]
                    })));
            }
            ly = ly + 1;
        }
        proof {
            assert(self.texture() =~= glyph_drawn(t0, self.glyph_size, position, bitmap@, placement));
        }
    }
}

} // verus!
