//! Composes the picture of a terminal: the part of the history scrolled to,
//! flowed line by line and wrapped at the right edge, followed by the rows of
//! the shown screen, with the cell under the cursor drawn in swapped colours.
use vstd::prelude::*;
use crate::primitives::{Cell, Pen, Vector2};
use crate::scrollback_buffer::{Line, ScrollbackBuffer, ScrollbackModel};
use crate::terminal_display::TerminalDisplay;
use crate::viewport::{Viewport, ViewportModel};

verus! {

/// Which part of the history is shown.
#[derive(Clone, Copy, Debug, PartialEq, Eq, Structural)]
pub enum RenderPosition {
    /// None of it: the screen alone, as the program sees it.
    Bottom,
    /// The history from this line on, then the screen.
    Floating(usize),
}

/// A picture of `h` rows of `w` cells, all `cell`.
pub open spec fn filled_grid(w: nat, h: nat, cell: Cell) -> Seq<Seq<Cell>> {
    Seq::new(h, |r: int| Seq::new(w, |c: int| cell))
}

/// `cells` flowed into `grid` from column `x` of row `y`: a cell that would
/// go past the last column goes to the start of the next row instead, and
/// the flow stops below the last row. Gives the picture and where the next
/// cell would go.
pub open spec fn flowed_cells(grid: Seq<Seq<Cell>>, x: int, y: int, cells: Seq<Cell>, w: int, h: int)
    -> (Seq<Seq<Cell>>, int, int)
    decreases cells.len(),
{
    if cells.len() == 0 {
        (grid, x, y)
    } else {
        let x1 = if x >= w { 0 } else { x };
        let y1 = if x >= w { y + 1 } else { y };
        if y1 >= h {
            (grid, x1, y1)
        } else {
            flowed_cells(grid.update(y1, grid[y1].update(x1, cells[0])), x1 + 1, y1, cells.drop_first(), w, h)
        }
    }
}

/// `lines` flowed into `grid` one after another, each from the start of a
/// row, from row `y` on, until the picture is full. Gives the picture and
/// where the next cell would go.
pub open spec fn flowed_lines(grid: Seq<Seq<Cell>>, y: int, lines: Seq<Seq<Cell>>, w: int, h: int)
    -> (Seq<Seq<Cell>>, int, int)
    decreases lines.len(),
{
    if lines.len() == 0 || y >= h {
        (grid, 0, y)
    } else {
        let f = flowed_cells(grid, 0, y, lines[0], w, h);
        if f.2 >= h {
            f
        } else {
            flowed_lines(f.0, f.2 + 1, lines.drop_first(), w, h)
        }
    }
}

/// Row `row` of the screen as drawn: its written part, then spaces with the default pen.
pub open spec fn drawn_row(v: ViewportModel, row: int) -> Seq<Cell> {
    let length = v.statuses[row].length as int;
    v.rows[row].take(length) + Seq::new((v.size.x - length) as nat, |i: int| Cell { character: ' ', pen: v.default_pen })
}

/// `grid` with the rows of the screen drawn from row `y` on, as many as fit.
pub open spec fn with_screen_rows(grid: Seq<Seq<Cell>>, y: int, v: ViewportModel) -> Seq<Seq<Cell>> {
    Seq::new(grid.len(), |r: int| if y <= r && r - y < v.size.y { drawn_row(v, r - y) } else { grid[r] })
}

/// `cell` with its foreground and background colours swapped.
pub open spec fn inverted(cell: Cell) -> Cell {
    Cell { pen: Pen { foreground_colour: cell.pen.background_colour, background_colour: cell.pen.foreground_colour, ..cell.pen }, ..cell }
}

/// `grid` with the cell under the cursor of `v` inverted, the screen being
/// drawn from row `y` on. A cursor one past the last column marks the first
/// cell of the next row; a cursor below the picture marks nothing.
pub open spec fn with_cursor(grid: Seq<Seq<Cell>>, y: int, v: ViewportModel, w: int) -> Seq<Seq<Cell>> {
    let r = if v.cursor.x < w { y + v.cursor.y } else { y + v.cursor.y + 1 };
    let c = if v.cursor.x < w { v.cursor.x as int } else { 0 };
    if 0 <= r < grid.len() { grid.update(r, grid[r].update(c, inverted(grid[r][c]))) } else { grid }
}

/// The cells of the lines of `history` from line `start` on.
pub open spec fn history_rows(history: ScrollbackModel, start: int) -> Seq<Seq<Cell>> {
    Seq::new((history.lines.len() - start) as nat, |k: int| history.line_cells(history.lines[start + k]))
}

/// The renderer as plain values.
#[verifier::ext_equal]
pub struct RendererModel {
    pub grid: Seq<Seq<Cell>>,
    pub size: Vector2,
    pub position: RenderPosition,
    pub last_known_total_rows: nat,
}

impl RendererModel {
    /// The first line of `history` shown from `position`, where the history has `total` lines.
    pub open spec fn first_shown(position: RenderPosition, total: nat) -> nat {
        match position {
            RenderPosition::Bottom => total,
            RenderPosition::Floating(row) => if row >= total { total } else { row as nat },
        }
    }

    /// The renderer after drawing the screen `v`.
    pub open spec fn rendered(self, v: ViewportModel) -> RendererModel {
        let w = v.size.x as int;
        let h = v.size.y as int;
        let blank = filled_grid(v.size.x as nat, v.size.y as nat, Cell { character: ' ', pen: v.default_pen });
        match v.history {
            Some(history) => {
                let total = history.lines.len();
                let start = RendererModel::first_shown(self.position, total);
                let f = flowed_lines(blank, 0, history_rows(history, start as int), w, h);
                let g = with_screen_rows(f.0, f.2, v);
                RendererModel {
                    grid: if f.2 < h { with_cursor(g, f.2, v, w) } else { g },
                    size: v.size,
                    position: if start == total { RenderPosition::Bottom } else { self.position },
                    last_known_total_rows: total,
                }
            },
            None => RendererModel {
                grid: with_cursor(with_screen_rows(blank, 0, v), 0, v, w),
                size: v.size,
                ..self
            },
        }
    }

    /// Shows `total` lines more of the history.
    pub open spec fn scrolled_up(self, total: nat) -> RendererModel {
        let from = match self.position {
            RenderPosition::Bottom => self.last_known_total_rows,
            RenderPosition::Floating(row) => row as nat,
        };
        RendererModel { position: RenderPosition::Floating(if from >= total { (from - total) as usize } else { 0 }), ..self }
    }

    /// Shows `total` lines less of the history, back to the screen alone when none is left.
    pub open spec fn scrolled_down(self, total: nat) -> RendererModel {
        match self.position {
            RenderPosition::Bottom => self,
            RenderPosition::Floating(row) => RendererModel {
                position: if row + total >= self.last_known_total_rows { RenderPosition::Bottom } else { RenderPosition::Floating((row + total) as usize) },
                ..self
            },
        }
    }
}

/// At the bottom, the picture is the screen alone, as the program sees it,
/// with its cursor, whatever the history holds; and it stays at the bottom.
pub proof fn lemma_bottom_shows_screen(m: RendererModel, v: ViewportModel)
    requires
        m.position == RenderPosition::Bottom,
        v.size.y > 0,
    ensures
        m.rendered(v).grid == with_cursor(
            with_screen_rows(filled_grid(v.size.x as nat, v.size.y as nat, Cell { character: ' ', pen: v.default_pen }), 0, v),
            0, v, v.size.x as int),
        m.rendered(v).position == RenderPosition::Bottom,
{
    let blank = filled_grid(v.size.x as nat, v.size.y as nat, Cell { character: ' ', pen: v.default_pen });
    match v.history {
        Some(history) => {
            let total = history.lines.len();
            assert(history_rows(history, total as int).len() == 0);
            let f = flowed_lines(blank, 0, history_rows(history, total as int), v.size.x as int, v.size.y as int);
            assert(f == (blank, 0int, 0int));
        },
        None => {},
    }
}

/// Scrolling up by `total` lines and then down by as many comes back to where
/// the view was, when there were at least `total` lines above it.
pub proof fn lemma_scroll_up_then_down(m: RendererModel, total: nat)
    requires
        m.last_known_total_rows <= usize::MAX,
        match m.position {
            RenderPosition::Bottom => total <= m.last_known_total_rows,
            RenderPosition::Floating(row) => total <= row < m.last_known_total_rows,
        },
    ensures
        m.scrolled_up(total).scrolled_down(total) == m,
{
}

/// Flowing cells into a picture keeps its row count and never moves up.
proof fn lemma_flowed_cells_shape(grid: Seq<Seq<Cell>>, x: int, y: int, cells: Seq<Cell>, w: int, h: int)
    requires
        grid.len() == h,
        0 <= y,
    ensures
        flowed_cells(grid, x, y, cells, w, h).0.len() == h,
        flowed_cells(grid, x, y, cells, w, h).2 >= y,
    decreases cells.len(),
{
    if cells.len() > 0 {
        let x1 = if x >= w { 0 } else { x };
        let y1 = if x >= w { y + 1 } else { y };
        if y1 < h {
            lemma_flowed_cells_shape(grid.update(y1, grid[y1].update(x1, cells[0])), x1 + 1, y1, cells.drop_first(), w, h);
        }
    }
}

/// Flowing lines into a picture keeps its row count and never moves up.
proof fn lemma_flowed_lines_shape(grid: Seq<Seq<Cell>>, y: int, lines: Seq<Seq<Cell>>, w: int, h: int)
    requires
        grid.len() == h,
        0 <= y,
    ensures
        flowed_lines(grid, y, lines, w, h).0.len() == h,
        flowed_lines(grid, y, lines, w, h).2 >= y,
    decreases lines.len(),
{
    if lines.len() > 0 && y < h {
        lemma_flowed_cells_shape(grid, 0, y, lines[0], w, h);
        let f = flowed_cells(grid, 0, y, lines[0], w, h);
        if f.2 < h {
            lemma_flowed_lines_shape(f.0, f.2 + 1, lines.drop_first(), w, h);
        }
    }
}

/// The picture of the history alone, as the renderer at `m` shows it above
/// the screen `v` (on a blank picture), and how many rows it takes.
pub open spec fn history_part(m: RendererModel, v: ViewportModel) -> (Seq<Seq<Cell>>, int) {
    let w = v.size.x as int;
    let h = v.size.y as int;
    let blank = filled_grid(v.size.x as nat, v.size.y as nat, Cell { character: ' ', pen: v.default_pen });
    match v.history {
        Some(history) => {
            let total = history.lines.len();
            let f = flowed_lines(blank, 0, history_rows(history, RendererModel::first_shown(m.position, total) as int), w, h);
            (f.0, f.2)
        },
        None => (blank, 0),
    }
}

/// Whether the cursor of `v` is drawn on cell `c` of screen row `r`: the
/// cell under it, or the first cell of the next row where it is one past
/// the last column.
pub open spec fn cursor_on(v: ViewportModel, r: int, c: int) -> bool {
    if v.cursor.x < v.size.x {
        r == v.cursor.y && c == v.cursor.x
    } else {
        r == v.cursor.y + 1 && c == 0
    }
}

/// Where the history takes `f` rows of the picture, the screen is drawn from
/// picture row `f` on, as many rows as fit, and the cursor is marked there:
/// picture cell `(f + r, c)` is cell `c` of screen row `r` as drawn, in
/// swapped colours exactly where the cursor is on it; the rows above `f`
/// are the history's own.
pub proof fn lemma_screen_and_cursor_below_history(m: RendererModel, v: ViewportModel)
    requires
        v.size.y > 0,
        v.rows.len() == v.size.y,
        v.statuses.len() == v.size.y,
        forall|r: int| 0 <= r < v.size.y ==> (#[trigger] v.rows[r]).len() == v.size.x,
        forall|r: int| 0 <= r < v.size.y ==> (#[trigger] v.statuses[r]).length <= v.size.x,
    ensures
        ({
            let p = m.rendered(v).grid;
            let f = history_part(m, v).1;
            let w = v.size.x as int;
            let h = v.size.y as int;
            &&& 0 <= f
            &&& f < h ==> p.len() == h
            &&& f < h ==> forall|r: int, c: int| 0 <= r < h - f && 0 <= c < w ==>
                #[trigger] p[f + r][c] == (if cursor_on(v, r, c) { inverted(drawn_row(v, r)[c]) } else { drawn_row(v, r)[c] })
            &&& f < h ==> forall|r: int| 0 <= r < f ==> #[trigger] p[r] == history_part(m, v).0[r]
        }),
{
    let w = v.size.x as int;
    let h = v.size.y as int;
    let blank = filled_grid(v.size.x as nat, v.size.y as nat, Cell { character: ' ', pen: v.default_pen });
    if let Some(history) = v.history {
        let total = history.lines.len();
        lemma_flowed_lines_shape(blank, 0, history_rows(history, RendererModel::first_shown(m.position, total) as int), w, h);
    }
    let (g0, f) = history_part(m, v);
    if f < h {
        let g = with_screen_rows(g0, f, v);
        assert(g.len() == h);
        assert forall|r: int| 0 <= r < h - f implies (#[trigger] g[f + r]) == drawn_row(v, r) && drawn_row(v, r).len() == w by {
            assert(v.rows[r].len() == w);
        }
        let p = m.rendered(v).grid;
        assert(p == with_cursor(g, f, v, w));
        assert forall|r: int, c: int| 0 <= r < h - f && 0 <= c < w implies
            #[trigger] p[f + r][c] == (if cursor_on(v, r, c) { inverted(drawn_row(v, r)[c]) } else { drawn_row(v, r)[c] }) by {
            assert(g[f + r] == drawn_row(v, r));
        }
    }
}

pub struct TerminalRenderer {
    rows: Vec<Vec<Cell>>,
    size: Vector2,
    position: RenderPosition,
    last_known_total_rows: usize,
}

/// The rows of `rows` as plain sequences.
pub open spec fn grid_of(rows: Seq<Vec<Cell>>) -> Seq<Seq<Cell>> {
    Seq::new(rows.len(), |r: int| rows[r]@)
}

/// Flows `cells` into `rows` from column `x` of row `y` (see `flowed_cells`).
fn flow_cells(rows: &mut Vec<Vec<Cell>>, x: usize, y: usize, cells: &Vec<Cell>, w: usize, h: usize) -> (r: (usize, usize))
    requires
        old(rows)@.len() == h,
        forall|k: int| 0 <= k < h ==> (#[trigger] old(rows)@[k])@.len() == w,
        x <= w,
        y < h,
        1 <= w < usize::MAX,
        h < usize::MAX,
    ensures
        final(rows)@.len() == h,
        forall|k: int| 0 <= k < h ==> (#[trigger] final(rows)@[k])@.len() == w,
        r.0 <= w,
        r.1 <= h,
        flowed_cells(grid_of(old(rows)@), x as int, y as int, cells@, w as int, h as int)
            == (grid_of(final(rows)@), r.0 as int, r.1 as int),
{
    let ghost target = flowed_cells(grid_of(rows@), x as int, y as int, cells@, w as int, h as int);
    let mut x = x;
    let mut y = y;
    let mut j: usize = 0;
    let mut stopped = false;
    proof { assert(cells@.skip(0) =~= cells@); }
    while j < cells.len() && !stopped
        invariant
            rows@.len() == h,
            forall|k: int| 0 <= k < h ==> (#[trigger] rows@[k])@.len() == w,
            x <= w,
            y <= h,
            !stopped ==> y < h,
            j <= cells@.len(),
            1 <= w < usize::MAX,
            h < usize::MAX,
            target == (if stopped { (grid_of(rows@), x as int, y as int) }
                else { flowed_cells(grid_of(rows@), x as int, y as int, cells@.skip(j as int), w as int, h as int) }),
        decreases cells@.len() - j, if stopped { 0int } else { 1int },
    {
        let ghost g = grid_of(rows@);
        let ghost rest = cells@.skip(j as int);
        proof {
            assert(rest[0] == cells@[j as int]);
            assert(rest.drop_first() =~= cells@.skip(j + 1));
        }
        let x1 = if x >= w { 0 } else { x };
        let y1 = if x >= w { y + 1 } else { y };
        if y1 >= h {
            x = x1;
            y = y1;
            stopped = true;
        } else {
            rows[y1].set(x1, cells[j]);
            proof { assert(grid_of(rows@) =~= g.update(y1 as int, g[y1 as int].update(x1 as int, cells@[j as int]))); }
            x = x1 + 1;
            y = y1;
            j = j + 1;
        }
    }
    proof {
        if !stopped {
            assert(cells@.skip(j as int).len() == 0);
        }
    }
    (x, y)
}

/// Flows the lines of `history` from line `start` on into `rows` from the
/// top (see `flowed_lines`).
fn flow_history(rows: &mut Vec<Vec<Cell>>, history: &ScrollbackBuffer, lines: &Vec<Line>, start: usize, w: usize, h: usize)
    -> (r: (usize, usize))
    requires
        history.wf(),
        lines@ == history.model().lines,
        start <= lines@.len(),
        old(rows)@.len() == h,
        forall|k: int| 0 <= k < h ==> (#[trigger] old(rows)@[k])@.len() == w,
        1 <= w < usize::MAX,
        h < usize::MAX,
    ensures
        final(rows)@.len() == h,
        forall|k: int| 0 <= k < h ==> (#[trigger] final(rows)@[k])@.len() == w,
        r.0 <= w,
        r.1 <= h,
        flowed_lines(grid_of(old(rows)@), 0, history_rows(history.model(), start as int), w as int, h as int)
            == (grid_of(final(rows)@), r.0 as int, r.1 as int),
{
    proof { history.lemma_lines_in_ring(); }
    let ghost hm = history.model();
    let ghost target = flowed_lines(grid_of(rows@), 0, history_rows(hm, start as int), w as int, h as int);
    let mut x: usize = 0;
    let mut y: usize = 0;
    let mut k = start;
    let mut stopped = false;
    while k < lines.len() && y < h && !stopped
        invariant
            history.wf(),
            hm == history.model(),
            lines@ == hm.lines,
            start <= k <= lines@.len(),
            rows@.len() == h,
            forall|i: int| 0 <= i < h ==> (#[trigger] rows@[i])@.len() == w,
            1 <= w < usize::MAX,
            h < usize::MAX,
            x <= w,
            y <= h,
            !stopped ==> x == 0,
            forall|i: int| 0 <= i < hm.lines.len() ==> {
                &&& (#[trigger] hm.lines[i]).start() < hm.ring.len()
                &&& hm.lines[i].length() <= hm.ring.len()
            },
            history.cells_capacity() == hm.ring.len(),
            target == (if stopped { (grid_of(rows@), x as int, y as int) }
                else { flowed_lines(grid_of(rows@), y as int, history_rows(hm, k as int), w as int, h as int) }),
        decreases lines@.len() - k, if stopped { 0int } else { 1int },
    {
        let ghost g = grid_of(rows@);
        let ghost rest = history_rows(hm, k as int);
        let line = lines[k];
        let cells = history.get_row(&line);
        proof {
            assert(rest[0] == cells@);
            assert(rest.drop_first() =~= history_rows(hm, k + 1));
        }
        let (x1, y1) = flow_cells(rows, 0, y, &cells, w, h);
        if y1 >= h {
            x = x1;
            y = y1;
            stopped = true;
        } else {
            x = 0;
            y = y1 + 1;
            k = k + 1;
        }
    }
    proof {
        if !stopped {
            assert(k == lines@.len() || y >= h);
        }
    }
    (x, y)
}

/// Builds row `row` of the screen as drawn (see `drawn_row`).
fn drawn_row_of(viewport: &Viewport, row: usize) -> (r: Vec<Cell>)
    requires
        viewport.wf(),
        row < viewport.model().size.y,
    ensures
        r@ == drawn_row(viewport.model(), row as int),
        r@.len() == viewport.model().size.x,
{
    proof { viewport.lemma_model_shape(); }
    let (cells, status) = viewport.get_row(row);
    let width = viewport.get_size().x;
    let pen = viewport.get_default_pen();
    let mut out: Vec<Cell> = Vec::with_capacity(width);
    let mut i: usize = 0;
    while i < status.length
        invariant
            i <= status.length <= width,
            cells@.len() == width,
            out@ == cells@.take(i as int),
        decreases status.length - i,
    {
        out.push(cells[i]);
        proof { assert(out@ =~= cells@.take(i + 1)); }
        i = i + 1;
    }
    let ghost written = out@;
    while i < width
        invariant
            status.length <= i <= width,
            written == cells@.take(status.length as int),
            out@ == written + Seq::new((i - status.length) as nat, |k: int| Cell { character: ' ', pen }),
        decreases width - i,
    {
        out.push(Cell { character: ' ', pen });
        proof {
            assert(out@ =~= written + Seq::new((i + 1 - status.length) as nat, |k: int| Cell { character: ' ', pen }));
        }
        i = i + 1;
    }
    out
}

/// Draws the rows of the screen into `rows` from row `y` on, as many as fit.
fn draw_screen_rows(rows: &mut Vec<Vec<Cell>>, y: usize, viewport: &Viewport)
    requires
        viewport.wf(),
        old(rows)@.len() == viewport.model().size.y,
        forall|k: int| 0 <= k < old(rows)@.len() ==> (#[trigger] old(rows)@[k])@.len() == viewport.model().size.x,
        y <= viewport.model().size.y,
    ensures
        final(rows)@.len() == old(rows)@.len(),
        forall|k: int| 0 <= k < final(rows)@.len() ==> (#[trigger] final(rows)@[k])@.len() == viewport.model().size.x,
        grid_of(final(rows)@) == with_screen_rows(grid_of(old(rows)@), y as int, viewport.model()),
{
    proof { viewport.lemma_model_shape(); }
    let ghost g0 = grid_of(rows@);
    let ghost v = viewport.model();
    let h = viewport.get_size().y;
    let mut r = y;
    while r < h
        invariant
            viewport.wf(),
            v == viewport.model(),
            h == v.size.y,
            y <= r <= h,
            rows@.len() == h,
            g0.len() == h,
            forall|k: int| 0 <= k < h ==> (#[trigger] rows@[k])@.len() == v.size.x,
            grid_of(rows@) == Seq::new(h as nat, |k: int| if y <= k < r { drawn_row(v, k - y) } else { g0[k] }),
        decreases h - r,
    {
        let row = drawn_row_of(viewport, r - y);
        let ghost drawn = row@;
        let ghost before = rows@;
        rows.set(r, row);
        proof {
            assert(rows@[r as int]@ == drawn);
            assert forall|k: int| 0 <= k < h && k != r implies rows@[k] == before[k] by {}
            let target = Seq::new(h as nat, |k: int| if y <= k < r + 1 { drawn_row(v, k - y) } else { g0[k] });
            assert forall|k: int| 0 <= k < h implies #[trigger] grid_of(rows@)[k] == target[k] by {
                if k == r {
                    assert(grid_of(rows@)[k] == drawn);
                } else {
                    assert(grid_of(rows@)[k] == grid_of(before)[k]);
                }
            }
        }
        proof {
            assert(grid_of(rows@) =~= Seq::new(h as nat, |k: int| if y <= k < r + 1 { drawn_row(v, k - y) } else { g0[k] }));
        }
        r = r + 1;
    }
    proof {
        assert(grid_of(rows@) =~= with_screen_rows(g0, y as int, v));
    }
}

/// Inverts the cell under the cursor of the screen drawn from row `y` on (see `with_cursor`).
fn mark_cursor(rows: &mut Vec<Vec<Cell>>, y: usize, viewport: &Viewport)
    requires
        viewport.wf(),
        old(rows)@.len() == viewport.model().size.y,
        forall|k: int| 0 <= k < old(rows)@.len() ==> (#[trigger] old(rows)@[k])@.len() == viewport.model().size.x,
        y <= viewport.model().size.y,
    ensures
        final(rows)@.len() == old(rows)@.len(),
        forall|k: int| 0 <= k < final(rows)@.len() ==> (#[trigger] final(rows)@[k])@.len() == viewport.model().size.x,
        grid_of(final(rows)@) == with_cursor(grid_of(old(rows)@), y as int, viewport.model(), viewport.model().size.x as int),
{
    proof { viewport.lemma_model_shape(); }
    let ghost g0 = grid_of(rows@);
    let size = viewport.get_size();
    let cursor = viewport.get_cursor();
    let (r, c) = if cursor.x < size.x { (y + cursor.y, cursor.x) } else { (y + cursor.y + 1, 0) };
    if r < size.y {
        let cell = rows[r][c];
        let pen = Pen { foreground_colour: cell.pen.background_colour, background_colour: cell.pen.foreground_colour, ..cell.pen };
        rows[r].set(c, Cell { pen, ..cell });
        proof {
            assert(grid_of(rows@) =~= g0.update(r as int, g0[r as int].update(c as int, inverted(g0[r as int][c as int]))));
        }
    }
}

impl TerminalRenderer {
    pub closed spec fn model(&self) -> RendererModel {
        RendererModel {
            grid: grid_of(self.rows@),
            size: self.size,
            position: self.position,
            last_known_total_rows: self.last_known_total_rows as nat,
        }
    }

    pub closed spec fn wf(&self) -> bool {
        &&& self.rows@.len() == self.size.y
        &&& forall|k: int| 0 <= k < self.size.y ==> (#[trigger] self.rows@[k])@.len() == self.size.x
    }

    /// Scrolling up and then down by the same count: from the bottom the view
    /// always comes back to the bottom, whatever the count; from anywhere with
    /// at least that many lines above it, back to where it was.
    pub proof fn lemma_scroll_round_trip(&self, total: nat)
        ensures
            self.model().position == RenderPosition::Bottom ==>
                self.model().scrolled_up(total).scrolled_down(total).position == RenderPosition::Bottom,
            (match self.model().position {
                RenderPosition::Bottom => total <= self.model().last_known_total_rows,
                RenderPosition::Floating(row) => total <= row < self.model().last_known_total_rows,
            }) ==> self.model().scrolled_up(total).scrolled_down(total) == self.model(),
    {
        let m = self.model();
        if m.position == RenderPosition::Bottom {
            let up = m.scrolled_up(total);
            assert(up.last_known_total_rows == m.last_known_total_rows);
        }
        if (match m.position {
            RenderPosition::Bottom => total <= m.last_known_total_rows,
            RenderPosition::Floating(row) => total <= row < m.last_known_total_rows,
        }) {
            lemma_scroll_up_then_down(m, total);
        }
    }

    /// The count of history lines the renderer remembers fits in a `usize`,
    /// as `lemma_scroll_up_then_down` asks of it.
    pub proof fn lemma_remembered_rows_fit(&self)
        ensures
            self.model().last_known_total_rows <= usize::MAX,
    {
    }

    /// The size of the last picture.
    pub fn get_size(&self) -> (r: Vector2)
        ensures
            r == self.model().size,
    {
        self.size
    }

    /// The cells of the last picture, row after row.
    pub fn get_cells(&self) -> (r: Vec<Cell>)
        ensures
            r@ == self.model().grid.flatten(),
    {
        let mut out: Vec<Cell> = Vec::new();
        let mut k: usize = 0;
        while k < self.rows.len()
            invariant
                k <= self.rows@.len(),
                out@ == grid_of(self.rows@).take(k as int).flatten(),
            decreases self.rows@.len() - k,
        {
            let ghost before = out@;
            let row = &self.rows[k];
            let mut i: usize = 0;
            while i < row.len()
                invariant
                    i <= row@.len(),
                    out@ == before + row@.take(i as int),
                decreases row@.len() - i,
            {
                out.push(row[i]);
                proof { assert(out@ =~= before + row@.take(i + 1)); }
                i = i + 1;
            }
            proof {
                let g = grid_of(self.rows@);
                assert(row@.take(row@.len() as int) =~= row@);
                assert(g.take(k + 1) =~= g.take(k as int).push(g[k as int]));
                g.take(k as int).lemma_flatten_push(g[k as int]);
            }
            k = k + 1;
        }
        proof { assert(grid_of(self.rows@).take(self.rows@.len() as int) =~= grid_of(self.rows@)); }
        out
    }

    /// Draws the shown screen of `display`: the history from the line scrolled
    /// to (going back to the screen alone where the history has fewer lines),
    /// then the screen's rows, then the cursor.
    pub fn render_display(&mut self, display: &TerminalDisplay)
        requires
            old(self).wf(),
            display.wf(),
        ensures
            final(self).wf(),
            final(self).model() == old(self).model().rendered(display.model().current()),
    {
        let viewport = display.get_current_viewport();
        proof { viewport.lemma_model_shape(); }
        let ghost v = viewport.model();
        let size = viewport.get_size();
        let default_pen = viewport.get_default_pen();
        let default_cell = Cell { character: ' ', pen: default_pen };
        let mut rows: Vec<Vec<Cell>> = Vec::with_capacity(size.y);
        let mut r: usize = 0;
        while r < size.y
            invariant
                r <= size.y,
                rows@.len() == r,
                forall|k: int| 0 <= k < r ==> (#[trigger] rows@[k])@ == Seq::new(size.x as nat, |c: int| default_cell),
            decreases size.y - r,
        {
            let mut row: Vec<Cell> = Vec::with_capacity(size.x);
            let mut c: usize = 0;
            while c < size.x
                invariant
                    c <= size.x,
                    row@ == Seq::new(c as nat, |i: int| default_cell),
                decreases size.x - c,
            {
                row.push(default_cell);
                c = c + 1;
            }
            rows.push(row);
            r = r + 1;
        }
        proof {
            assert(grid_of(rows@) =~= filled_grid(size.x as nat, size.y as nat, default_cell));
        }
        let ghost blank = grid_of(rows@);
        let mut y: usize = 0;
        let mut history_shown = false;
        match viewport.get_scrollback_buffer() {
            Some(history) => {
                let lines = history.get_lines();
                let total = lines.len();
                self.last_known_total_rows = total;
                let start = match self.position {
                    RenderPosition::Bottom => total,
                    RenderPosition::Floating(row) => if row >= total { total } else { row },
                };
                if start == total {
                    self.position = RenderPosition::Bottom;
                }
                let (_x, y1) = flow_history(&mut rows, history, &lines, start, size.x, size.y);
                y = y1;
                history_shown = true;
            },
            None => {},
        }
        let ghost flowed = grid_of(rows@);
        draw_screen_rows(&mut rows, y, viewport);
        if y < size.y {
            mark_cursor(&mut rows, y, viewport);
        }
        self.rows = rows;
        self.size = size;
        proof {
            assert(self.model().grid == grid_of(rows@));
        }
    }

    /// Shows `total` lines more of the history.
    pub fn scroll_up(&mut self, total: usize)
        ensures
            final(self).wf() == old(self).wf(),
            final(self).model() == old(self).model().scrolled_up(total as nat),
    {
        let from = match self.position {
            RenderPosition::Bottom => self.last_known_total_rows,
            RenderPosition::Floating(row) => row,
        };
        self.position = RenderPosition::Floating(from.saturating_sub(total));
        proof { assert(self.model() =~= old(self).model().scrolled_up(total as nat)); }
    }

    /// Shows `total` lines less of the history, back to the screen alone when none is left.
    pub fn scroll_down(&mut self, total: usize)
        ensures
            final(self).wf() == old(self).wf(),
            final(self).model() == old(self).model().scrolled_down(total as nat),
    {
        match self.position {
            RenderPosition::Bottom => {},
            RenderPosition::Floating(row) => {
                if total >= self.last_known_total_rows || row >= self.last_known_total_rows - total {
                    self.position = RenderPosition::Bottom;
                } else {
                    self.position = RenderPosition::Floating(row + total);
                }
            },
        }
        proof { assert(self.model() =~= old(self).model().scrolled_down(total as nat)); }
    }

    /// Shows the whole history from its oldest line.
    pub fn scroll_to_top(&mut self)
        ensures
            final(self).wf() == old(self).wf(),
            final(self).model() == (RendererModel { position: RenderPosition::Floating(0), ..old(self).model() }),
    {
        self.position = RenderPosition::Floating(0);
        proof { assert(self.model() =~= (RendererModel { position: RenderPosition::Floating(0), ..old(self).model() })); }
    }

    /// Shows the screen alone.
    pub fn scroll_to_bottom(&mut self)
        ensures
            final(self).wf() == old(self).wf(),
            final(self).model() == (RendererModel { position: RenderPosition::Bottom, ..old(self).model() }),
    {
        self.position = RenderPosition::Bottom;
        proof { assert(self.model() =~= (RendererModel { position: RenderPosition::Bottom, ..old(self).model() })); }
    }
}

impl Default for TerminalRenderer {
    /// An empty picture showing the screen alone.
    fn default() -> (r: Self)
        ensures
            r.wf(),
            r.model() == (RendererModel {
                grid: Seq::empty(),
                size: Vector2 { x: 0, y: 0 },
                position: RenderPosition::Bottom,
                last_known_total_rows: 0,
            }),
    {
        let r = TerminalRenderer {
            rows: Vec::new(),
            size: Vector2 { x: 0, y: 0 },
            position: RenderPosition::Bottom,
            last_known_total_rows: 0,
        };
        proof {
            assert(r.model() =~= (RendererModel {
                grid: Seq::empty(),
                size: Vector2 { x: 0, y: 0 },
                position: RenderPosition::Bottom,
                last_known_total_rows: 0,
            }));
        }
        r
    }
}

} // verus!
