//! Fills a glyph grid from the cells of a terminal picture: each cell gets the
//! atlas cell of its character from the glyph cache and its colours, and the
//! glyphs the cache now wants drawn are listed for the rasteriser.
use vstd::prelude::*;
use crate::glyph_cache::{GlyphCache, GlyphCacheLocation, GlyphCacheModel, glyph_presence};
use crate::glyph_grid::{GlyphGrid, GlyphGridData, Rgba8, packed_colour};
use crate::primitives::{Cell, Rgb8, Vector2, default_cell};
use crate::scrollback_buffer::{ScrollbackBuffer, ScrollbackModel};
use crate::terminal_renderer::history_rows;
use crate::viewport::{Viewport, ViewportModel};

verus! {

/// A glyph to rasterise and draw into an atlas cell.
#[derive(Clone, Copy, Debug, PartialEq, Eq, Structural)]
pub struct GlyphDraw {
    pub location: GlyphCacheLocation,
    pub character: char,
}

/// The cache after being asked for the characters of `cells` one after
/// another, `known` telling for each whether the font has its glyph; with the
/// cell handed out for each, and the glyphs to draw, in the order asked.
pub open spec fn located_all(m: GlyphCacheModel, cells: Seq<Cell>, known: Seq<bool>, time_id: usize)
    -> (GlyphCacheModel, Seq<GlyphCacheLocation>, Seq<GlyphDraw>)
    decreases cells.len(),
{
    if cells.len() == 0 {
        (m, Seq::empty(), Seq::empty())
    } else {
        let (m1, locations, draws) = located_all(m, cells.drop_last(), known.drop_last(), time_id);
        let (m2, l, d) = m1.located(cells.last().character, known.last(), time_id);
        (m2, locations.push(l), match d {
            Some(c) => draws.push(GlyphDraw { location: l, character: c }),
            None => draws,
        })
    }
}

/// `c` fully opaque.
pub open spec fn opaque(c: Rgb8) -> Rgba8 {
    Rgba8 { r: c.r, g: c.g, b: c.b, a: 255 }
}

/// The record `rec`, which was `prev`, shows `cell` with the glyph at `l`:
/// the page and glyph position (cut to their fields), the colours of the
/// cell made opaque, and the last word as it was.
pub open spec fn shows(rec: GlyphGridData, prev: GlyphGridData, l: GlyphCacheLocation, cell: Cell) -> bool {
    &&& rec.page_index() == (l.page_index as u32) & 0xFF
    &&& rec.glyph_x() == (l.glyph_position.x as u32) & 0xFFF
    &&& rec.glyph_y() == (l.glyph_position.y as u32) & 0xFFF
    &&& rec.data[1] == packed_colour(opaque(cell.pen.foreground_colour))
    &&& rec.data[2] == packed_colour(opaque(cell.pen.background_colour))
    &&& rec.data[3] == prev.data[3]
}

/// `grid` (which was `before`) is `size` cells and shows `cells` with the
/// atlas cells the cache handed out (see `shows`), the cache (which was
/// `cache_before`) having been asked for the characters of `cells` in order
/// (see `located_all`), with `draws` the glyphs to draw.
pub open spec fn grid_updated(
    before: GlyphGrid,
    grid: GlyphGrid,
    cache_before: GlyphCacheModel,
    cache: GlyphCacheModel,
    size: Vector2,
    cells: Seq<Cell>,
    known: Seq<bool>,
    time_id: usize,
    draws: Seq<GlyphDraw>,
) -> bool {
    let (m, locations, d) = located_all(cache_before, cells, known, time_id);
    &&& grid.spec_size() == size
    &&& grid.cells().len() == cells.len()
    &&& cache == m
    &&& draws == d
    &&& forall|i: int| 0 <= i < cells.len() ==> shows(
        #[trigger] grid.cells()[i],
        if i < before.cells().len() { before.cells()[i] } else { GlyphGridData { data: [0u32, 0u32, 0u32, 0u32] } },
        locations[i],
        cells[i],
    )
}

/// Resizes `grid` to `size` (see `GlyphGrid::resize`) and makes each record
/// show the cell of `cells` at its place (see `shows`), asking `cache` for
/// the characters in order (see `located_all`); gives the glyphs to draw.
pub fn update_grid_from_terminal(
    grid: &mut GlyphGrid,
    cache: &mut GlyphCache,
    size: Vector2,
    cells: &[Cell],
    known: &[bool],
    time_id: usize,
) -> (r: Vec<GlyphDraw>)
    requires
        old(cache).wf(),
        size.x >= 1,
        size.y >= 1,
        size.x * size.y <= usize::MAX,
        cells@.len() == size.x * size.y,
        known@.len() == cells@.len(),
    ensures
        final(cache).wf(),
        grid_updated(*old(grid), *final(grid), old(cache).model(), final(cache).model(), size, cells@, known@, time_id, r@),
{
    let ghost m0 = cache.model();
    grid.resize(size);
    let ghost resized = grid.cells();
    let total = cells.len();
    let mut draws: Vec<GlyphDraw> = Vec::new();
    let ghost mut locations: Seq<GlyphCacheLocation> = Seq::empty();
    let mut i: usize = 0;
    proof {
        assert(cells@.take(0) =~= Seq::<Cell>::empty());
        assert(known@.take(0) =~= Seq::<bool>::empty());
    }
    while i < total
        invariant
            total == cells@.len(),
            known@.len() == total,
            i <= total,
            cache.wf(),
            grid.spec_size() == size,
            grid.cells().len() == total,
            resized.len() == total,
            locations.len() == i,
            located_all(m0, cells@.take(i as int), known@.take(i as int), time_id) == (cache.model(), locations, draws@),
            forall|j: int| 0 <= j < i ==> shows(#[trigger] grid.cells()[j], resized[j], locations[j], cells@[j]),
            forall|j: int| i <= j < total ==> #[trigger] grid.cells()[j] == resized[j],
        decreases total - i,
    {
        let cell = cells[i];
        let ghost prefix = cells@.take(i as int);
        let ghost kprefix = known@.take(i as int);
        proof {
            assert(cells@.take(i + 1).drop_last() =~= prefix);
            assert(known@.take(i + 1).drop_last() =~= kprefix);
            assert(cells@.take(i + 1).last() == cell);
            assert(known@.take(i + 1).last() == known@[i as int]);
        }
        let (location, draw) = cache.locate(cell.character, known[i], time_id);
        let mut record = grid.get_data()[i];
        record.set_page_index(location.page_index);
        record.set_glyph_position(location.glyph_position);
        let fg = cell.pen.foreground_colour;
        let bg = cell.pen.background_colour;
        record.set_foreground_colour(Rgba8 { r: fg.r, g: fg.g, b: fg.b, a: 255 });
        record.set_background_colour(Rgba8 { r: bg.r, g: bg.g, b: bg.b, a: 255 });
        grid.set_data(i, record);
        match draw {
            Some(c) => { draws.push(GlyphDraw { location, character: c }); },
            None => {},
        }
        proof {
            locations = locations.push(location);
        }
        i = i + 1;
    }
    proof {
        assert(cells@.take(total as int) =~= cells@);
        assert(known@.take(total as int) =~= known@);
    }
    draws
}

/// The cell shown at column `x` of row `y` of the screen `v`: the written
/// cell, or the default cell past the written part of the row.
pub open spec fn screen_cell(v: ViewportModel, y: int, x: int) -> Cell {
    if x < v.statuses[y].length { v.rows[y][x] } else { default_cell() }
}

/// The cell at column `x` of row `y` of the row-major grid `cells`, `w` wide.
pub open spec fn grid_cell(cells: Seq<Cell>, w: int, y: int, x: int) -> Cell {
    cells[y * w + x]
}

/// The cells of the screen `v`, row after row (see `screen_cell`).
pub open spec fn screen_cells(v: ViewportModel) -> Seq<Cell> {
    let w = v.size.x as int;
    Seq::new((v.size.x * v.size.y) as nat, |i: int| screen_cell(v, i / w, i % w))
}

/// Place `i` of a row-major grid `w` wide and `h` high is column `i % w` of row `i / w`.
proof fn lemma_row_major_place(w: int, h: int, i: int)
    requires
        1 <= w,
        0 <= i < w * h,
    ensures
        0 <= i / w < h,
        0 <= i % w < w,
        i == (i / w) * w + i % w,
{
    vstd::arithmetic::div_mod::lemma_fundamental_div_mod(i, w);
    vstd::arithmetic::div_mod::lemma_mod_pos_bound(i, w);
    let y = i / w;
    let x = i % w;
    assert(y * w == w * y) by (nonlinear_arith);
    assert(0 <= y) by (nonlinear_arith) requires i == w * y + x, x < w, 0 <= i, 1 <= w;
    assert(y < h) by (nonlinear_arith) requires i == w * y + x, 0 <= x, i < w * h, 1 <= w;
}

/// Cell `x` of row `y` comes before the first cell of row `y2`, for `y < y2`.
proof fn lemma_row_major_before(w: int, y: int, x: int, y2: int)
    requires
        0 <= y < y2,
        0 <= x < w,
    ensures
        0 <= y * w + x < y2 * w,
{
    assert(0 <= y * w) by (nonlinear_arith) requires 0 <= y, 0 <= w;
    assert(y * w + x < y2 * w) by (nonlinear_arith) requires y < y2, x < w, 0 <= x;
}

/// The cells of the screen of `viewport`, row after row: each row's written
/// cells, then default cells up to the width.
pub fn viewport_cells(viewport: &Viewport) -> (r: Vec<Cell>)
    requires
        viewport.wf(),
        viewport.model().size.x * viewport.model().size.y <= usize::MAX,
    ensures
        r@.len() == viewport.model().size.x * viewport.model().size.y,
        forall|y: int, x: int| 0 <= y < viewport.model().size.y && 0 <= x < viewport.model().size.x ==>
            #[trigger] grid_cell(r@, viewport.model().size.x as int, y, x) == screen_cell(viewport.model(), y, x),
        r@ == screen_cells(viewport.model()),
{
    proof { viewport.lemma_model_shape(); }
    let ghost m = viewport.model();
    let size = viewport.get_size();
    let w = size.x;
    let h = size.y;
    let mut out: Vec<Cell> = Vec::new();
    let mut y: usize = 0;
    while y < h
        invariant
            viewport.wf(),
            m == viewport.model(),
            size == m.size,
            w == size.x,
            h == size.y,
            w * h <= usize::MAX,
            y <= h,
            m.rows.len() == h,
            m.statuses.len() == h,
            forall|r: int| 0 <= r < h ==> (#[trigger] m.rows[r]).len() == w,
            forall|r: int| 0 <= r < h ==> (#[trigger] m.statuses[r]).length <= w,
            out@.len() == y * w,
            forall|yy: int, xx: int| 0 <= yy < y && 0 <= xx < w ==>
                #[trigger] grid_cell(out@, w as int, yy, xx) == screen_cell(m, yy, xx),
        decreases h - y,
    {
        let (row, status) = viewport.get_row(y);
        let ghost before = out@;
        let mut x: usize = 0;
        while x < w
            invariant
                x <= w,
                y < h,
                m.rows.len() == h,
                m.statuses.len() == h,
                row@ == m.rows[y as int],
                status == m.statuses[y as int],
                row@.len() == w,
                status.length <= w,
                out@.len() == y * w + x,
                before.len() == y * w,
                out@.take(y * w) == before,
                forall|xx: int| 0 <= xx < x ==> #[trigger] out@[y * w + xx] == screen_cell(m, y as int, xx),
            decreases w - x,
        {
            let c = if x < status.length { row[x] } else { Cell::default() };
            let ghost prev = out@;
            out.push(c);
            proof {
                assert(out@.take(y * w) =~= prev.take(y * w));
                assert forall|xx: int| 0 <= xx < x + 1 implies #[trigger] out@[y * w + xx] == screen_cell(m, y as int, xx) by {
                    if xx < x {
                        assert(out@[y * w + xx] == prev[y * w + xx]);
                    }
                }
            }
            x = x + 1;
        }
        proof {
            assert(out@.len() == (y + 1) * w) by (nonlinear_arith) requires out@.len() == y * w + w;
            assert forall|yy: int, xx: int| 0 <= yy < y + 1 && 0 <= xx < w implies
                #[trigger] grid_cell(out@, w as int, yy, xx) == screen_cell(m, yy, xx) by {
                if yy < y {
                    lemma_row_major_before(w as int, yy, xx, y as int);
                    assert(out@[yy * w + xx] == out@.take(y * w)[yy * w + xx]);
                    assert(grid_cell(before, w as int, yy, xx) == screen_cell(m, yy, xx));
                } else {
                    assert(out@[y * w + xx] == screen_cell(m, y as int, xx));
                }
            }
        }
        y = y + 1;
    }
    proof {
        assert(y * w == w * h) by (nonlinear_arith) requires y == h;
        assert forall|i: int| 0 <= i < out@.len() implies #[trigger] out@[i] == screen_cells(m)[i] by {
            lemma_row_major_place(w as int, h as int, i);
            assert(grid_cell(out@, w as int, i / (w as int), i % (w as int)) == screen_cell(m, i / (w as int), i % (w as int)));
        }
        assert(out@ =~= screen_cells(m));
    }
    out
}

/// `line` written into the row-major grid `g` (`w` wide, `h` high) from
/// column `x` of row `y`: after the last column the next cell goes to the
/// start of the next row, and writing stops once below the last row. Gives
/// the grid and where the next cell would go.
pub open spec fn written_line(g: Seq<Cell>, x: int, y: int, line: Seq<Cell>, w: int, h: int) -> (Seq<Cell>, int, int)
    decreases line.len(),
{
    if line.len() == 0 {
        (g, x, y)
    } else {
        let g1 = g.update(y * w + x, line[0]);
        let x1 = if x + 1 >= w { 0 } else { x + 1 };
        let y1 = if x + 1 >= w { y + 1 } else { y };
        if y1 >= h { (g1, x1, y1) } else { written_line(g1, x1, y1, line.drop_first(), w, h) }
    }
}

/// `lines` written into `g` one after another, each from the start of the
/// row after the one the last ended on, from row `y` on, until the grid is full.
pub open spec fn written_lines(g: Seq<Cell>, y: int, lines: Seq<Seq<Cell>>, w: int, h: int) -> Seq<Cell>
    decreases lines.len(),
{
    if lines.len() == 0 || y >= h {
        g
    } else {
        let f = written_line(g, 0, y, lines[0], w, h);
        if f.2 >= h { f.0 } else { written_lines(f.0, f.2 + 1, lines.drop_first(), w, h) }
    }
}

/// Writing lines into a grid keeps its size.
proof fn lemma_written_lines_len(g: Seq<Cell>, y: int, lines: Seq<Seq<Cell>>, w: int, h: int)
    requires
        g.len() == w * h,
        0 <= y,
        1 <= w,
    ensures
        written_lines(g, y, lines, w, h).len() == w * h,
    decreases lines.len(),
{
    if lines.len() > 0 && y < h {
        lemma_written_line_len(g, 0, y, lines[0], w, h);
        let f = written_line(g, 0, y, lines[0], w, h);
        if f.2 < h {
            lemma_written_lines_len(f.0, f.2 + 1, lines.drop_first(), w, h);
        }
    }
}

/// Writing a line into a grid keeps its size, and goes on no further left
/// than column 0 nor up from its row.
proof fn lemma_written_line_len(g: Seq<Cell>, x: int, y: int, line: Seq<Cell>, w: int, h: int)
    requires
        g.len() == w * h,
        0 <= x < w,
        0 <= y < h,
    ensures
        written_line(g, x, y, line, w, h).0.len() == w * h,
        written_line(g, x, y, line, w, h).2 >= y,
    decreases line.len(),
{
    if line.len() > 0 {
        lemma_row_major_before(w, y, x, h);
        assert(h * w == w * h) by (nonlinear_arith);
        let x1 = if x + 1 >= w { 0 } else { x + 1 };
        let y1 = if x + 1 >= w { y + 1 } else { y };
        if y1 < h {
            lemma_written_line_len(g.update(y * w + x, line[0]), x1, y1, line.drop_first(), w, h);
        }
    }
}

/// The line of `history` that showing it from line `start` begins with: at
/// most one past its last line.
pub open spec fn clamped_line(history: ScrollbackModel, start: nat) -> nat {
    if start <= history.lines.len() { start } else { history.lines.len() }
}

/// The cells of a `w` by `h` grid that shows `history` from line `start`
/// on (see `clamped_line`), on a grid of default cells.
pub open spec fn history_cells(history: ScrollbackModel, start: nat, w: nat, h: nat) -> Seq<Cell> {
    written_lines(Seq::new(w * h, |i: int| default_cell()), 0,
        history_rows(history, clamped_line(history, start) as int), w as int, h as int)
}

/// A grid of `total` default cells.
fn default_cells(total: usize) -> (r: Vec<Cell>)
    ensures
        r@ == Seq::new(total as nat, |i: int| default_cell()),
{
    let mut out: Vec<Cell> = Vec::with_capacity(total);
    let mut i: usize = 0;
    while i < total
        invariant
            i <= total,
            out@ == Seq::new(i as nat, |k: int| default_cell()),
        decreases total - i,
    {
        out.push(Cell::default());
        i = i + 1;
        proof { assert(out@ =~= Seq::new(i as nat, |k: int| default_cell())); }
    }
    out
}

/// Writes `cells` into the grid `g` from the start of row `y` (see `written_line`).
fn write_line(g: &mut Vec<Cell>, y: usize, cells: &Vec<Cell>, w: usize, h: usize) -> (r: (usize, usize))
    requires
        old(g)@.len() == w * h,
        y < h,
        1 <= w,
        w * h <= usize::MAX,
    ensures
        final(g)@.len() == w * h,
        r.0 < w,
        r.1 <= h,
        written_line(old(g)@, 0, y as int, cells@, w as int, h as int) == (final(g)@, r.0 as int, r.1 as int),
{
    let ghost target = written_line(g@, 0, y as int, cells@, w as int, h as int);
    let mut x: usize = 0;
    let mut y = y;
    let mut j: usize = 0;
    let mut stopped = false;
    proof { assert(cells@.skip(0) =~= cells@); }
    while j < cells.len() && !stopped
        invariant
            g@.len() == w * h,
            1 <= w,
            w * h <= usize::MAX,
            x < w,
            y <= h,
            !stopped ==> y < h,
            j <= cells@.len(),
            target == (if stopped { (g@, x as int, y as int) }
                else { written_line(g@, x as int, y as int, cells@.skip(j as int), w as int, h as int) }),
        decreases cells@.len() - j, if stopped { 0int } else { 1int },
    {
        let ghost rest = cells@.skip(j as int);
        proof {
            assert(rest[0] == cells@[j as int]);
            assert(rest.drop_first() =~= cells@.skip(j + 1));
            lemma_row_major_before(w as int, y as int, x as int, h as int);
            assert(h * w == w * h) by (nonlinear_arith);
        }
        g.set(y * w + x, cells[j]);
        if x + 1 >= w {
            x = 0;
            y = y + 1;
        } else {
            x = x + 1;
        }
        j = j + 1;
        if y >= h {
            stopped = true;
        }
    }
    proof {
        if !stopped {
            assert(cells@.skip(j as int).len() == 0);
        }
    }
    (x, y)
}

/// The cells of a `size` grid that shows `history` from line `start` on
/// (see `history_cells`).
pub fn history_grid_cells(history: &ScrollbackBuffer, start: usize, size: Vector2) -> (r: Vec<Cell>)
    requires
        history.wf(),
        size.x >= 1,
        size.x * size.y <= usize::MAX,
    ensures
        r@ == history_cells(history.model(), start as nat, size.x as nat, size.y as nat),
{
    proof { history.lemma_lines_in_ring(); }
    let ghost hm = history.model();
    let w = size.x;
    let h = size.y;
    let lines = history.get_lines();
    let first = if start <= lines.len() { start } else { lines.len() };
    let mut g = default_cells(w * h);
    let ghost target = history_cells(hm, start as nat, w as nat, h as nat);
    let mut y: usize = 0;
    let mut k = first;
    let mut stopped = false;
    while k < lines.len() && y < h && !stopped
        invariant
            history.wf(),
            hm == history.model(),
            lines@ == hm.lines,
            first <= k <= lines@.len(),
            g@.len() == w * h,
            1 <= w,
            w * h <= usize::MAX,
            y <= h,
            forall|i: int| 0 <= i < hm.lines.len() ==> {
                &&& (#[trigger] hm.lines[i]).start() < hm.ring.len()
                &&& hm.lines[i].length() <= hm.ring.len()
            },
            history.cells_capacity() == hm.ring.len(),
            target == (if stopped { g@ } else { written_lines(g@, y as int, history_rows(hm, k as int), w as int, h as int) }),
        decreases lines@.len() - k, if stopped { 0int } else { 1int },
    {
        let ghost rest = history_rows(hm, k as int);
        let line = lines[k];
        let cells = history.get_row(&line);
        proof {
            assert(rest[0] == cells@);
            assert(rest.drop_first() =~= history_rows(hm, k + 1));
        }
        let (_x1, y1) = write_line(&mut g, y, &cells, w, h);
        if y1 >= h {
            stopped = true;
        } else {
            y = y1 + 1;
            k = k + 1;
        }
    }
    proof {
        if !stopped {
            assert(history_rows(hm, k as int).len() == 0 || y >= h);
        }
    }
    g
}

/// What a terminal window keeps to draw a terminal with glyphs: how many
/// frames it has drawn, whether it shows the history instead of the screen
/// and from which line, the cells it took last, and its glyph grid and cache.
pub struct TerminalWindow {
    current_frame: usize,
    is_scrollback_buffer: bool,
    scrollback_buffer_line: usize,
    terminal_cells: Vec<Cell>,
    glyph_grid: GlyphGrid,
    glyph_cache: GlyphCache,
}

impl TerminalWindow {
    /// How many frames have been drawn.
    pub closed spec fn frame(&self) -> nat {
        self.current_frame as nat
    }

    /// Whether the history is shown instead of the screen.
    pub closed spec fn shows_history(&self) -> bool {
        self.is_scrollback_buffer
    }

    /// The line of the history shown first.
    pub closed spec fn history_line(&self) -> nat {
        self.scrollback_buffer_line as nat
    }

    /// The cells taken for the last frame, row after row.
    pub closed spec fn cells(&self) -> Seq<Cell> {
        self.terminal_cells@
    }

    /// The glyph grid.
    pub closed spec fn grid(&self) -> GlyphGrid {
        self.glyph_grid
    }

    /// The glyph cache.
    pub closed spec fn cache(&self) -> GlyphCache {
        self.glyph_cache
    }

    pub closed spec fn wf(&self) -> bool {
        self.glyph_cache.wf()
    }

    /// A window that has drawn nothing yet, shows the screen, and draws with
    /// `glyph_cache`.
    pub fn new(glyph_cache: GlyphCache) -> (r: Self)
        requires
            glyph_cache.wf(),
        ensures
            r.wf(),
            r.frame() == 0,
            !r.shows_history(),
            r.history_line() == 0,
            r.cells() == Seq::<Cell>::empty(),
            r.grid().spec_size() == (Vector2 { x: 0, y: 0 }),
            r.cache() == glyph_cache,
    {
        proof { assert(0 * 0 <= usize::MAX) by (nonlinear_arith); }
        TerminalWindow {
            current_frame: 0,
            is_scrollback_buffer: false,
            scrollback_buffer_line: 0,
            terminal_cells: Vec::new(),
            glyph_grid: GlyphGrid::new(Vector2 { x: 0, y: 0 }),
            glyph_cache,
        }
    }

    /// Shows the history instead of the screen, or the screen again.
    pub fn toggle_scrollback_buffer(&mut self)
        ensures
            final(self).shows_history() == !old(self).shows_history(),
            final(self).frame() == old(self).frame(),
            final(self).history_line() == old(self).history_line(),
            final(self).cells() == old(self).cells(),
            final(self).grid() == old(self).grid(),
            final(self).cache() == old(self).cache(),
    {
        self.is_scrollback_buffer = !self.is_scrollback_buffer;
    }

    /// Shows the history from line `line` on.
    pub fn set_scrollback_buffer_line(&mut self, line: usize)
        ensures
            final(self).history_line() == line,
            final(self).shows_history() == old(self).shows_history(),
            final(self).frame() == old(self).frame(),
            final(self).cells() == old(self).cells(),
            final(self).grid() == old(self).grid(),
            final(self).cache() == old(self).cache(),
    {
        self.scrollback_buffer_line = line;
    }

    /// The glyph grid.
    pub fn get_glyph_grid(&self) -> (r: &GlyphGrid)
        ensures
            *r == self.grid(),
    {
        &self.glyph_grid
    }

    /// The glyph cache.
    pub fn get_glyph_cache(&self) -> (r: &GlyphCache)
        ensures
            *r == self.cache(),
    {
        &self.glyph_cache
    }

    /// Starts the next frame and takes the cells to draw from `viewport`
    /// (see `frame_cells`); where the history is shown, the line shown first
    /// is cut back to at most one past its last line.
    pub fn take_terminal_cells(&mut self, viewport: &Viewport) -> (r: Vec<Cell>)
        requires
            old(self).frame() < usize::MAX,
            viewport.wf(),
            viewport.model().size.x * viewport.model().size.y <= usize::MAX,
        ensures
            final(self).frame() == old(self).frame() + 1,
            r@ == frame_cells(viewport.model(), old(self).shows_history(), old(self).history_line()),
            final(self).history_line() == line_after(viewport.model(), old(self).shows_history(), old(self).history_line()),
            final(self).shows_history() == old(self).shows_history(),
            final(self).cells() == old(self).cells(),
            final(self).grid() == old(self).grid(),
            final(self).cache() == old(self).cache(),
    {
        proof { viewport.lemma_model_shape(); }
        self.current_frame = self.current_frame + 1;
        let size = viewport.get_size();
        if self.is_scrollback_buffer {
            match viewport.get_scrollback_buffer() {
                Some(history) => {
                    let total = history.get_lines().len();
                    if self.scrollback_buffer_line > total {
                        self.scrollback_buffer_line = total;
                    }
                    history_grid_cells(history, self.scrollback_buffer_line, size)
                },
                None => default_cells(size.x * size.y),
            }
        } else {
            viewport_cells(viewport)
        }
    }

    /// Fills the glyph grid, `size` cells, from `cells` with this frame's
    /// number (see `grid_updated`), `known` telling for each cell whether the
    /// font has a glyph for its character; keeps `cells` as the cells taken.
    /// Gives the glyphs to draw.
    pub fn fill_glyph_grid(&mut self, size: Vector2, cells: Vec<Cell>, known: &[bool]) -> (r: Vec<GlyphDraw>)
        requires
            old(self).wf(),
            size.x >= 1,
            size.y >= 1,
            size.x * size.y <= usize::MAX,
            cells@.len() == size.x * size.y,
            known@.len() == cells@.len(),
        ensures
            final(self).wf(),
            final(self).cells() == cells@,
            final(self).frame() == old(self).frame(),
            final(self).history_line() == old(self).history_line(),
            final(self).shows_history() == old(self).shows_history(),
            grid_updated(old(self).grid(), final(self).grid(), old(self).cache().model(), final(self).cache().model(),
                size, cells@, known@, old(self).frame() as usize, r@),
    {
        let draws = update_grid_from_terminal(
            &mut self.glyph_grid, &mut self.glyph_cache, size, cells.as_slice(), known, self.current_frame);
        self.terminal_cells = cells;
        draws
    }

    /// Starts the next frame: takes the cells to draw from `viewport` (see
    /// `take_terminal_cells`) and fills the glyph grid from them with this
    /// frame's number (see `fill_glyph_grid`), `font` telling which characters
    /// have glyphs. Gives the glyphs to draw.
    pub fn update_grid_from_terminal(&mut self, viewport: &Viewport, font: &fontdue::Font) -> (r: Vec<GlyphDraw>)
        requires
            old(self).wf(),
            viewport.wf(),
            old(self).frame() < usize::MAX,
            viewport.model().size.x * viewport.model().size.y <= usize::MAX,
        ensures
            final(self).wf(),
            final(self).frame() == old(self).frame() + 1,
            final(self).shows_history() == old(self).shows_history(),
            final(self).cells() == frame_cells(viewport.model(), old(self).shows_history(), old(self).history_line()),
            final(self).history_line() == line_after(viewport.model(), old(self).shows_history(), old(self).history_line()),
            exists|known: Seq<bool>| known.len() == final(self).cells().len()
                && #[trigger] grid_updated(old(self).grid(), final(self).grid(), old(self).cache().model(),
                    final(self).cache().model(), viewport.model().size, final(self).cells(), known,
                    final(self).frame() as usize, r@),
    {
        proof { viewport.lemma_model_shape(); }
        let size = viewport.get_size();
        let cells = self.take_terminal_cells(viewport);
        proof { lemma_frame_cells_len(viewport.model(), old(self).shows_history(), old(self).history_line()); }
        let known = glyph_presence(font, cells.as_slice());
        let draws = self.fill_glyph_grid(size, cells, known.as_slice());
        proof {
            assert(grid_updated(old(self).grid(), self.grid(), old(self).cache().model(), self.cache().model(),
                viewport.model().size, self.cells(), known@, self.frame() as usize, draws@));
        }
        draws
    }
}

/// The cells a window takes from the screen `v`: the screen's cells (see
/// `screen_cells`), or, where it shows the history, the history from line
/// `line` on (see `history_cells`), all default cells where there is none.
pub open spec fn frame_cells(v: ViewportModel, shows_history: bool, line: nat) -> Seq<Cell> {
    let total = (v.size.x * v.size.y) as nat;
    if !shows_history {
        screen_cells(v)
    } else {
        match v.history {
            Some(history) => history_cells(history, line, v.size.x as nat, v.size.y as nat),
            None => Seq::new(total, |i: int| default_cell()),
        }
    }
}

/// The line a window shows the history from after taking the cells of `v`:
/// cut back to at most one past the history's last line where it shows it.
pub open spec fn line_after(v: ViewportModel, shows_history: bool, line: nat) -> nat {
    match v.history {
        Some(history) => if shows_history { clamped_line(history, line) } else { line },
        None => line,
    }
}

/// A window takes as many cells as the screen has.
proof fn lemma_frame_cells_len(v: ViewportModel, shows_history: bool, line: nat)
    requires
        1 <= v.size.x,
    ensures
        frame_cells(v, shows_history, line).len() == v.size.x * v.size.y,
{
    if shows_history {
        if let Some(history) = v.history {
            lemma_written_lines_len(Seq::new((v.size.x * v.size.y) as nat, |i: int| default_cell()), 0,
                history_rows(history, clamped_line(history, line) as int), v.size.x as int, v.size.y as int);
        }
    }
}

} // verus!
