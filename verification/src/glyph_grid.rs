//! The per-cell records a glyph renderer draws from: which glyph of which
//! atlas page, in which colours, underlined or not, packed into four words.
use vstd::prelude::*;
use crate::primitives::Vector2;

verus! {

/// A colour with an alpha channel.
#[derive(Clone, Copy, Debug, PartialEq, Eq, Structural)]
pub struct Rgba8 {
    pub r: u8,
    pub g: u8,
    pub b: u8,
    pub a: u8,
}

/// The word a colour packs into: red in the low byte, alpha in the high one.
pub open spec fn packed_colour(c: Rgba8) -> u32 {
    (c.r as u32) | ((c.g as u32) << 8u32) | ((c.b as u32) << 16u32) | ((c.a as u32) << 24u32)
}

/// One cell of a glyph grid. Word 0 holds the atlas page in bits 0..8, the
/// glyph column in bits 8..20 and the glyph row in bits 20..32; word 1 the
/// foreground colour, word 2 the background colour, and bit 0 of word 3
/// whether the cell is underlined.
#[derive(Clone, Copy, Debug, PartialEq, Eq)]
pub struct GlyphGridData {
    pub data: [u32; 4],
}

impl GlyphGridData {
    /// The atlas page.
    pub open spec fn page_index(self) -> u32 {
        self.data[0] & 0xFF
    }

    /// The glyph column in its page.
    pub open spec fn glyph_x(self) -> u32 {
        (self.data[0] >> 8u32) & 0xFFF
    }

    /// The glyph row in its page.
    pub open spec fn glyph_y(self) -> u32 {
        self.data[0] >> 20u32
    }

    /// Whether the cell is underlined.
    pub open spec fn is_underline(self) -> bool {
        self.data[3] & 1 == 1
    }

    /// A cell record of all zeros: glyph (0,0) of page 0, transparent black, not underlined.
    pub fn zeroed() -> (r: Self)
        ensures
            r == (GlyphGridData { data: [0u32, 0u32, 0u32, 0u32] }),
    {
        GlyphGridData { data: [0u32, 0u32, 0u32, 0u32] }
    }

    /// Sets the atlas page (its low eight bits); the glyph position stays.
    pub fn set_page_index(&mut self, page_index: usize)
        ensures
            final(self).page_index() == (page_index as u32) & 0xFF,
            final(self).glyph_x() == old(self).glyph_x(),
            final(self).glyph_y() == old(self).glyph_y(),
            final(self).data[1] == old(self).data[1],
            final(self).data[2] == old(self).data[2],
            final(self).data[3] == old(self).data[3],
    {
        let w = self.data[0];
        let p = page_index as u32;
        let n = (w & 0xFFFFFF00u32) | (p & 0xFFu32);
        self.data[0] = n;
        proof {
            assert(n & 0xFF == p & 0xFF) by (bit_vector) requires n == (w & 0xFFFFFF00u32) | (p & 0xFFu32);
            assert((n >> 8u32) & 0xFFF == (w >> 8u32) & 0xFFF) by (bit_vector) requires n == (w & 0xFFFFFF00u32) | (p & 0xFFu32);
            assert(n >> 20u32 == w >> 20u32) by (bit_vector) requires n == (w & 0xFFFFFF00u32) | (p & 0xFFu32);
        }
    }

    /// Sets the glyph position in its page (the low twelve bits of each
    /// coordinate); the page stays.
    pub fn set_glyph_position(&mut self, pos: Vector2)
        requires
            pos.x <= u32::MAX,
            pos.y <= u32::MAX,
        ensures
            final(self).page_index() == old(self).page_index(),
            final(self).glyph_x() == (pos.x as u32) & 0xFFF,
            final(self).glyph_y() == (pos.y as u32) & 0xFFF,
            final(self).data[1] == old(self).data[1],
            final(self).data[2] == old(self).data[2],
            final(self).data[3] == old(self).data[3],
    {
        let w = self.data[0];
        let x = pos.x as u32;
        let y = pos.y as u32;
        let n = (w & 0x000000FFu32) | ((x << 8u32) & 0x000FFF00u32) | ((y << 20u32) & 0xFFF00000u32);
        self.data[0] = n;
        proof {
            assert(n & 0xFF == w & 0xFF) by (bit_vector)
                requires n == (w & 0x000000FFu32) | ((x << 8u32) & 0x000FFF00u32) | ((y << 20u32) & 0xFFF00000u32);
            assert((n >> 8u32) & 0xFFF == x & 0xFFF) by (bit_vector)
                requires n == (w & 0x000000FFu32) | ((x << 8u32) & 0x000FFF00u32) | ((y << 20u32) & 0xFFF00000u32);
            assert(n >> 20u32 == y & 0xFFF) by (bit_vector)
                requires n == (w & 0x000000FFu32) | ((x << 8u32) & 0x000FFF00u32) | ((y << 20u32) & 0xFFF00000u32);
        }
    }

    /// Sets the foreground colour.
    pub fn set_foreground_colour(&mut self, colour: Rgba8)
        ensures
            final(self).data@ == old(self).data@.update(1, packed_colour(colour)),
    {
        self.data[1] = (colour.r as u32) | ((colour.g as u32) << 8u32) | ((colour.b as u32) << 16u32) | ((colour.a as u32) << 24u32);
    }

    /// Sets the background colour.
    pub fn set_background_colour(&mut self, colour: Rgba8)
        ensures
            final(self).data@ == old(self).data@.update(2, packed_colour(colour)),
    {
        self.data[2] = (colour.r as u32) | ((colour.g as u32) << 8u32) | ((colour.b as u32) << 16u32) | ((colour.a as u32) << 24u32);
    }

    /// Sets whether the cell is underlined; the other bits of word 3 stay.
    pub fn set_is_underline(&mut self, is_underline: bool)
        ensures
            final(self).is_underline() == is_underline,
            final(self).data[3] & !1u32 == old(self).data[3] & !1u32,
            final(self).data[0] == old(self).data[0],
            final(self).data[1] == old(self).data[1],
            final(self).data[2] == old(self).data[2],
    {
        let w = self.data[3];
        let bit: u32 = if is_underline { 1 } else { 0 };
        let n = (w & !1u32) | bit;
        self.data[3] = n;
        proof {
            assert(n & 1 == bit) by (bit_vector) requires n == (w & !1u32) | bit, bit <= 1;
            assert(n & !1u32 == w & !1u32) by (bit_vector) requires n == (w & !1u32) | bit, bit <= 1;
        }
    }
}

/// A grid of cell records, row after row.
pub struct GlyphGrid {
    data: Vec<GlyphGridData>,
    size: Vector2,
}

/// `count` records of all zeros.
pub open spec fn zeroed_records(count: nat) -> Seq<GlyphGridData> {
    Seq::new(count, |i: int| GlyphGridData { data: [0u32, 0u32, 0u32, 0u32] })
}

impl GlyphGrid {
    /// The records, row after row.
    pub closed spec fn cells(&self) -> Seq<GlyphGridData> {
        self.data@
    }

    /// The size in cells.
    pub closed spec fn spec_size(&self) -> Vector2 {
        self.size
    }

    /// A grid of `size` cells, all records zero.
    pub fn new(size: Vector2) -> (r: Self)
        requires
            size.x * size.y <= usize::MAX,
        ensures
            r.spec_size() == size,
            r.cells() == zeroed_records((size.x * size.y) as nat),
    {
        let total = size.x * size.y;
        let mut data: Vec<GlyphGridData> = Vec::with_capacity(total);
        let mut i: usize = 0;
        while i < total
            invariant
                i <= total,
                data@ == zeroed_records(i as nat),
            decreases total - i,
        {
            data.push(GlyphGridData::zeroed());
            proof { assert(data@ =~= zeroed_records((i + 1) as nat)); }
            i = i + 1;
        }
        GlyphGrid { data, size }
    }

    /// The size in cells.
    pub fn get_size(&self) -> (r: Vector2)
        ensures
            r == self.spec_size(),
    {
        self.size
    }

    /// The records, row after row.
    pub fn get_data(&self) -> (r: &[GlyphGridData])
        ensures
            r@ == self.cells(),
    {
        self.data.as_slice()
    }

    /// Replaces record `index` (counted row after row).
    pub fn set_data(&mut self, index: usize, record: GlyphGridData)
        requires
            index < old(self).cells().len(),
        ensures
            final(self).cells() == old(self).cells().update(index as int, record),
            final(self).spec_size() == old(self).spec_size(),
    {
        self.data.set(index, record);
    }

    /// Resizes the grid to `size` cells: records that still fit stay where
    /// they are in the row-after-row order, new ones are zero.
    pub fn resize(&mut self, size: Vector2)
        requires
            size.x >= 1,
            size.y >= 1,
            size.x * size.y <= usize::MAX,
        ensures
            final(self).spec_size() == size,
            final(self).cells().len() == size.x * size.y,
            forall|i: int| 0 <= i < final(self).cells().len() ==> #[trigger] final(self).cells()[i]
                == if i < old(self).cells().len() { old(self).cells()[i] } else { GlyphGridData { data: [0u32, 0u32, 0u32, 0u32] } },
    {
        let total = size.x * size.y;
        let ghost d0 = self.data@;
        if total < self.data.len() {
            self.data.truncate(total);
        } else {
            while self.data.len() < total
                invariant
                    d0.len() <= self.data@.len() <= total,
                    forall|i: int| 0 <= i < self.data@.len() ==> #[trigger] self.data@[i]
                        == if i < d0.len() { d0[i] } else { GlyphGridData { data: [0u32, 0u32, 0u32, 0u32] } },
                decreases total - self.data@.len(),
            {
                self.data.push(GlyphGridData::zeroed());
            }
        }
        self.size = size;
    }
}

} // verus!
