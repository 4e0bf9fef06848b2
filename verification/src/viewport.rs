//! The visible grid of a terminal: rows of cells, a cursor, the pen new text
//! is written with, and the history that rows scroll into. Rows are kept in
//! a ring so that scrolling moves no cells.
use vstd::prelude::*;
use crate::circular_buffer::wrap_index;
use crate::primitives::{Cell, LineStatus, Pen, Vector2, default_cell, default_status, default_pen};
use crate::scrollback_buffer::{ScrollbackBuffer, ScrollbackModel};

verus! {

/// The screen as plain values, rows in display order (top first).
#[verifier::ext_equal]
pub struct ViewportModel {
    pub size: Vector2,
    pub cursor: Vector2,
    pub rows: Seq<Seq<Cell>>,
    pub statuses: Seq<LineStatus>,
    pub history: Option<ScrollbackModel>,
    pub pen: Pen,
    pub default_pen: Pen,
    pub is_newline_carriage_return: bool,
    pub saved_cursor: Vector2,
}

/// A row of `width` blank cells.
pub open spec fn blank_row(width: nat) -> Seq<Cell> {
    Seq::new(width, |i: int| default_cell())
}

/// `count` spaces written with `pen`.
pub open spec fn spaces(count: nat, pen: Pen) -> Seq<Cell> {
    Seq::new(count, |i: int| Cell { character: ' ', pen })
}

/// The status of a row that ends in a line break and holds nothing.
pub open spec fn empty_break_status() -> LineStatus {
    LineStatus { length: 0, is_linebreak: true }
}

impl ViewportModel {
    /// The top row leaves the screen for the history, where there is one
    /// (its written part, then a line break where it had one); a blank row
    /// enters at the bottom.
    pub open spec fn ejected(self) -> ViewportModel {
        let row0 = self.rows[0].take(self.statuses[0].length as int);
        let history = match self.history {
            Some(h) => {
                let h1 = h.extended(row0);
                Some(if self.statuses[0].is_linebreak { h1.advanced() } else { h1 })
            },
            None => None,
        };
        ViewportModel {
            rows: self.rows.drop_first().push(blank_row(self.size.x as nat)),
            statuses: self.statuses.drop_first().push(default_status()),
            history,
            ..self
        }
    }

    /// The cursor moves one row down, scrolling the screen at the bottom; the
    /// row it leaves is marked as ending in a line break where `is_linebreak`.
    pub open spec fn next_line(self, is_linebreak: bool) -> ViewportModel {
        let y = self.cursor.y as int;
        let marked = if is_linebreak {
            ViewportModel {
                statuses: self.statuses.update(y, LineStatus { is_linebreak: true, ..self.statuses[y] }),
                ..self
            }
        } else {
            self
        };
        if y + 1 == self.size.y {
            marked.ejected()
        } else {
            ViewportModel { cursor: Vector2 { y: (y + 1) as usize, ..self.cursor }, ..marked }
        }
    }

    /// `cell` is written at the cursor, which moves one column right; a
    /// cursor past the last column first wraps to the start of the next row.
    pub open spec fn written(self, cell: Cell) -> ViewportModel {
        let s = if self.cursor.x == self.size.x {
            let n = self.next_line(false);
            ViewportModel { cursor: Vector2 { x: 0, ..n.cursor }, ..n }
        } else {
            self
        };
        let x = s.cursor.x as int;
        let y = s.cursor.y as int;
        let status = s.statuses[y];
        let length = if status.length >= x + 1 { status.length } else { (x + 1) as usize };
        ViewportModel {
            rows: s.rows.update(y, s.rows[y].update(x, cell)),
            statuses: s.statuses.update(y, LineStatus { length, ..status }),
            cursor: Vector2 { x: (x + 1) as usize, ..s.cursor },
            ..s
        }
    }

    /// The effect of one byte of plain text.
    pub open spec fn written_ascii(self, b: u8) -> ViewportModel {
        if b == 0x0a {
            let n = self.next_line(true);
            if self.is_newline_carriage_return { ViewportModel { cursor: Vector2 { x: 0, ..n.cursor }, ..n } } else { n }
        } else if b == 0x0d {
            ViewportModel { cursor: Vector2 { x: 0, ..self.cursor }, ..self }
        } else if b == 0x08 {
            let x = if self.cursor.x >= 1 { self.cursor.x - 1 } else { 0 };
            ViewportModel { cursor: Vector2 { x: x as usize, ..self.cursor }, ..self }
        } else if 0x20 <= b <= 0x7e {
            self.written(Cell { character: b as char, pen: self.pen })
        } else {
            self
        }
    }

    /// The cursor placed at `c`, held to the screen (the column may be one past the last).
    pub open spec fn cursor_set(self, c: Vector2) -> ViewportModel {
        let x = if c.x <= self.size.x { c.x } else { self.size.x };
        let y = if c.y <= self.size.y - 1 { c.y } else { (self.size.y - 1) as usize };
        ViewportModel { cursor: Vector2 { x, y }, ..self }
    }

    /// Display row `row` replaced by `cells` with `status`.
    pub open spec fn row_replaced(self, row: int, cells: Seq<Cell>, status: LineStatus) -> ViewportModel {
        ViewportModel { rows: self.rows.update(row, cells), statuses: self.statuses.update(row, status), ..self }
    }

    /// The cells `start..end` of display row `row` replaced by spaces written with `pen`.
    pub open spec fn erased(self, row: int, start: int, end: int, pen: Pen) -> ViewportModel {
        ViewportModel {
            rows: self.rows.update(row, Seq::new(self.rows[row].len(), |i: int|
                if start <= i < end { Cell { character: ' ', pen } } else { self.rows[row][i] })),
            ..self
        }
    }

    /// The status of display row `row` replaced by `status`.
    pub open spec fn status_set(self, row: int, status: LineStatus) -> ViewportModel {
        ViewportModel { statuses: self.statuses.update(row, status), ..self }
    }

    /// The screen moved one row down: a blank row ending in a line break
    /// enters at the top and the bottom row is dropped.
    pub open spec fn scrolled_down(self) -> ViewportModel {
        ViewportModel {
            rows: seq![blank_row(self.size.x as nat)] + self.rows.drop_last(),
            statuses: seq![empty_break_status()] + self.statuses.drop_last(),
            ..self
        }
    }

    /// `total` blank rows ending in line breaks inserted at the cursor row (at
    /// most as many as there are rows from the cursor down); the rows pushed
    /// past the bottom are dropped.
    pub open spec fn lines_inserted(self, total: nat) -> ViewportModel {
        let y = self.cursor.y as int;
        let max_rows = self.size.y - y;
        let t = if total <= max_rows { total as int } else { max_rows };
        ViewportModel {
            rows: self.rows.take(y) + Seq::new(t as nat, |i: int| blank_row(self.size.x as nat))
                + self.rows.subrange(y, self.size.y - t),
            statuses: self.statuses.take(y) + Seq::new(t as nat, |i: int| empty_break_status())
                + self.statuses.subrange(y, self.size.y - t),
            ..self
        }
    }

    /// The rows `start..end` marked empty and ending in a line break; their
    /// cells are kept.
    pub open spec fn breaks_set(self, start: int, end: int) -> ViewportModel {
        ViewportModel {
            statuses: Seq::new(self.statuses.len(), |r: int|
                if start <= r < end { empty_break_status() } else { self.statuses[r] }),
            ..self
        }
    }

    /// `total` rows removed from the cursor row on (at most as many as there
    /// are rows from the cursor down); blank rows with no line break fill up
    /// the bottom.
    pub open spec fn lines_deleted(self, total: nat) -> ViewportModel {
        let y = self.cursor.y as int;
        let max_rows = self.size.y - y;
        let t = if total <= max_rows { total as int } else { max_rows };
        ViewportModel {
            rows: self.rows.take(y) + self.rows.subrange(y + t, self.size.y as int)
                + Seq::new(t as nat, |i: int| blank_row(self.size.x as nat)),
            statuses: self.statuses.take(y) + self.statuses.subrange(y + t, self.size.y as int)
                + Seq::new(t as nat, |i: int| default_status()),
            ..self
        }
    }

    /// The cells `row[j..len]` written one after another.
    pub open spec fn cells_rewritten(self, row: Seq<Cell>, j: int, len: int) -> ViewportModel
        decreases len - j,
    {
        if j >= len { self } else { self.written(row[j]).cells_rewritten(row, j + 1, len) }
    }

    /// The rows `rows[i..]` written back one after another, each up to its
    /// length and followed by a new line where it ended in a line break,
    /// stopping at the first row that holds nothing and has no line break.
    pub open spec fn rows_rewritten(self, rows: Seq<Seq<Cell>>, statuses: Seq<LineStatus>, i: int) -> ViewportModel
        decreases rows.len() - i,
    {
        if i >= rows.len() || i < 0 {
            self
        } else if statuses[i].length == 0 && !statuses[i].is_linebreak {
            self
        } else {
            let m1 = self.cells_rewritten(rows[i], 0, statuses[i].length as int);
            let m2 = if statuses[i].is_linebreak {
                let n = m1.next_line(true);
                ViewportModel { cursor: Vector2 { x: 0, ..n.cursor }, ..n }
            } else {
                m1
            };
            m2.rows_rewritten(rows, statuses, i + 1)
        }
    }

    /// Display rows `start..end` filled with spaces written with `pen`, each
    /// marked as written to the last column and ending in a line break.
    pub open spec fn rows_blanked(self, start: int, end: int, pen: Pen) -> ViewportModel {
        ViewportModel {
            rows: Seq::new(self.rows.len(), |r: int|
                if start <= r < end { spaces(self.size.x as nat, pen) } else { self.rows[r] }),
            statuses: Seq::new(self.statuses.len(), |r: int|
                if start <= r < end { LineStatus { length: self.size.x, is_linebreak: true } } else { self.statuses[r] }),
            ..self
        }
    }

    /// `total` spaces written with `pen` inserted at column `x` of display
    /// row `row` (at most as many as there are columns from `x` on); the
    /// cells pushed past the last column are dropped and the written length
    /// grows by the number inserted, up to the width.
    pub open spec fn spaces_inserted(self, row: int, x: int, total: nat, pen: Pen) -> ViewportModel {
        let width = self.size.x as int;
        let t = if total <= width - x { total as int } else { width - x };
        let cells = self.rows[row];
        let status = self.statuses[row];
        let length = if status.length + t <= width { (status.length + t) as usize } else { self.size.x };
        ViewportModel {
            rows: self.rows.update(row, cells.take(x) + spaces(t as nat, pen) + cells.subrange(x, width - t)),
            statuses: self.statuses.update(row, LineStatus { length, ..status }),
            ..self
        }
    }

    /// `total` cells removed after column `x` of display row `row` (at most as
    /// many as there are after it); the cells behind move left and the last
    /// ones stay as they were, while the written length shrinks by the
    /// number removed, down to zero.
    pub open spec fn chars_deleted(self, row: int, x: int, total: nat) -> ViewportModel {
        let width = self.size.x as int;
        let start = x + 1;
        let t = if total <= width - start { total as int } else { width - start };
        let cells = self.rows[row];
        let status = self.statuses[row];
        let length = if status.length >= t { (status.length - t) as usize } else { 0usize };
        ViewportModel {
            rows: self.rows.update(row, cells.take(start) + cells.subrange(start + t, width) + cells.subrange(width - t, width)),
            statuses: self.statuses.update(row, LineStatus { length, ..status }),
            ..self
        }
    }

    /// The screen at size `new_size`: unchanged where the size is the same;
    /// otherwise a blank screen of the new size into which the old rows are
    /// written back in order (rows wrap, and overflow into the history), with
    /// the cursor then put back where it was, held to the new screen.
    pub open spec fn resized(self, new_size: Vector2) -> ViewportModel {
        if new_size == self.size {
            self
        } else {
            let blank = ViewportModel {
                size: new_size,
                cursor: Vector2 { x: 0, y: 0 },
                rows: Seq::new(new_size.y as nat, |r: int| blank_row(new_size.x as nat)),
                statuses: Seq::new(new_size.y as nat, |r: int| default_status()),
                ..self
            };
            blank.rows_rewritten(self.rows, self.statuses, 0).cursor_set(self.cursor)
        }
    }
}

/// Inserting lines at the cursor row and then deleting as many there keeps
/// every row that stayed on the screen where it was, and leaves blank rows
/// at the bottom in place of those that were pushed off.
pub proof fn lemma_insert_then_delete_lines(v: ViewportModel, total: nat)
    requires
        v.rows.len() == v.size.y,
        v.statuses.len() == v.size.y,
        v.cursor.y < v.size.y,
    ensures
        ({
            let t = if total <= v.size.y - v.cursor.y { total as int } else { v.size.y - v.cursor.y };
            let after = v.lines_inserted(total).lines_deleted(total);
            &&& after.rows == v.rows.take(v.size.y - t) + Seq::new(t as nat, |i: int| blank_row(v.size.x as nat))
            &&& after.statuses == v.statuses.take(v.size.y - t) + Seq::new(t as nat, |i: int| default_status())
            &&& after.cursor == v.cursor
        }),
{
    let t = if total <= v.size.y - v.cursor.y { total as int } else { v.size.y - v.cursor.y };
    let y = v.cursor.y as int;
    let h = v.size.y as int;
    let ins = v.lines_inserted(total);
    assert(ins.rows.len() == h);
    assert(ins.rows.subrange(y + t, h) =~= v.rows.subrange(y, h - t));
    assert(ins.rows.take(y) =~= v.rows.take(y));
    assert(ins.statuses.subrange(y + t, h) =~= v.statuses.subrange(y, h - t));
    assert(ins.statuses.take(y) =~= v.statuses.take(y));
    let after = ins.lines_deleted(total);
    assert(after.rows =~= v.rows.take(h - t) + Seq::new(t as nat, |i: int| blank_row(v.size.x as nat)));
    assert(after.statuses =~= v.statuses.take(h - t) + Seq::new(t as nat, |i: int| default_status()));
}

/// A printable character written with the cursor on a column of the screen
/// lands under the cursor, in the pen, and the cursor moves one column right;
/// every other row stays as it was.
pub proof fn lemma_write_puts_char(v: ViewportModel, b: u8)
    requires
        0x20 <= b <= 0x7e,
        v.cursor.x < v.size.x,
        v.cursor.y < v.rows.len(),
        v.cursor.y < v.statuses.len(),
        v.rows[v.cursor.y as int].len() == v.size.x,
    ensures
        ({
            let w = v.written_ascii(b);
            let x = v.cursor.x as int;
            let y = v.cursor.y as int;
            &&& w.rows[y][x] == Cell { character: b as char, pen: v.pen }
            &&& w.cursor == Vector2 { x: (x + 1) as usize, y: y as usize }
            &&& w.statuses[y].length >= x + 1
            &&& forall|r: int| 0 <= r < v.rows.len() && r != y ==> #[trigger] w.rows[r] == v.rows[r]
        }),
{
}

/// Resizing a screen to the size it has changes nothing.
pub proof fn lemma_resize_to_same_size(v: ViewportModel)
    ensures
        v.resized(v.size) == v,
{
}

/// Writing cells back keeps the size of the screen.
proof fn lemma_cells_rewritten_size(v: ViewportModel, row: Seq<Cell>, j: int, len: int)
    ensures
        v.cells_rewritten(row, j, len).size == v.size,
    decreases len - j,
{
    if j < len {
        lemma_cells_rewritten_size(v.written(row[j]), row, j + 1, len);
    }
}

/// Writing rows back keeps the size of the screen.
proof fn lemma_rows_rewritten_size(v: ViewportModel, rows: Seq<Seq<Cell>>, statuses: Seq<LineStatus>, i: int)
    ensures
        v.rows_rewritten(rows, statuses, i).size == v.size,
    decreases rows.len() - i,
{
    if 0 <= i < rows.len() && !(statuses[i].length == 0 && !statuses[i].is_linebreak) {
        let m1 = v.cells_rewritten(rows[i], 0, statuses[i].length as int);
        lemma_cells_rewritten_size(v, rows[i], 0, statuses[i].length as int);
        let m2 = if statuses[i].is_linebreak {
            let n = m1.next_line(true);
            ViewportModel { cursor: Vector2 { x: 0, ..n.cursor }, ..n }
        } else {
            m1
        };
        lemma_rows_rewritten_size(m2, rows, statuses, i + 1);
    }
}

/// Cells written back that fit in the rest of the cursor's row land there,
/// one after another from the cursor; nothing else changes but the row's
/// length and the cursor, which ends just after them.
proof fn lemma_cells_rewritten_in_row(v: ViewportModel, row: Seq<Cell>, j: int, len: int)
    requires
        0 <= j <= len <= row.len(),
        v.cursor.x + (len - j) <= v.size.x,
        v.cursor.y < v.size.y,
        v.rows.len() == v.size.y,
        v.statuses.len() == v.size.y,
        v.rows[v.cursor.y as int].len() == v.size.x,
    ensures
        ({
            let r = v.cells_rewritten(row, j, len);
            let y = v.cursor.y as int;
            let x = v.cursor.x as int;
            &&& r.size == v.size
            &&& r.cursor == (Vector2 { x: (x + len - j) as usize, y: v.cursor.y })
            &&& r.rows.len() == v.rows.len()
            &&& r.statuses.len() == v.statuses.len()
            &&& forall|k: int| 0 <= k < v.rows.len() && k != y ==> #[trigger] r.rows[k] == v.rows[k]
            &&& forall|k: int| 0 <= k < v.statuses.len() && k != y ==> #[trigger] r.statuses[k] == v.statuses[k]
            &&& r.rows[y].len() == v.rows[y].len()
            &&& forall|c: int| x <= c < x + len - j ==> #[trigger] r.rows[y][c] == row[j + c - x]
            &&& forall|c: int| 0 <= c < x ==> #[trigger] r.rows[y][c] == v.rows[y][c]
            &&& r.statuses[y].is_linebreak == v.statuses[y].is_linebreak
            &&& r.statuses[y].length == (if j < len && v.statuses[y].length < x + len - j { (x + len - j) as usize } else { v.statuses[y].length })
        }),
    decreases len - j,
{
    if j < len {
        let w = v.written(row[j]);
        let y = v.cursor.y as int;
        let x = v.cursor.x as int;
        assert(w.cursor == Vector2 { x: (x + 1) as usize, y: v.cursor.y });
        lemma_cells_rewritten_in_row(w, row, j + 1, len);
        let r = w.cells_rewritten(row, j + 1, len);
        assert(r == v.cells_rewritten(row, j, len));
        assert forall|c: int| x <= c < x + len - j implies #[trigger] r.rows[y][c] == row[j + c - x] by {
            if c == x {
                assert(r.rows[y][c] == w.rows[y][c]);
            }
        }
        assert forall|c: int| 0 <= c < x implies #[trigger] r.rows[y][c] == v.rows[y][c] by {
            assert(r.rows[y][c] == w.rows[y][c]);
        }
    }
}

/// Resizing keeps line breaks: where the top row of a screen ends in a line
/// break and the next row does not, and nothing is written below them (the
/// text "hello", a line break, then "world"), a resize to another size at
/// least two rows high and wide enough for each of them leaves the top row
/// with that row's text and its line break, and the next row's text starting
/// at the first column of the second row, not joined to the top row.
pub proof fn lemma_resize_keeps_line_breaks(v: ViewportModel, new_size: Vector2)
    requires
        new_size != v.size,
        new_size.y >= 2,
        v.rows.len() >= 2,
        v.statuses.len() == v.rows.len(),
        v.statuses[0].is_linebreak,
        v.statuses[0].length <= new_size.x,
        v.statuses[0].length <= v.rows[0].len(),
        !v.statuses[1].is_linebreak,
        v.statuses[1].length <= new_size.x,
        v.statuses[1].length <= v.rows[1].len(),
        forall|r: int| 2 <= r < v.rows.len() ==> (#[trigger] v.statuses[r]).length == 0 && !v.statuses[r].is_linebreak,
    ensures
        ({
            let after = v.resized(new_size);
            let n = v.statuses[0].length as int;
            let m = v.statuses[1].length as int;
            &&& after.statuses[0] == (LineStatus { length: n as usize, is_linebreak: true })
            &&& after.rows[0].take(n) == v.rows[0].take(n)
            &&& after.statuses[1].length == m
            &&& after.rows[1].take(m) == v.rows[1].take(m)
        }),
{
    let n = v.statuses[0].length as int;
    let m = v.statuses[1].length as int;
    let blank = ViewportModel {
        size: new_size,
        cursor: Vector2 { x: 0, y: 0 },
        rows: Seq::new(new_size.y as nat, |r: int| blank_row(new_size.x as nat)),
        statuses: Seq::new(new_size.y as nat, |r: int| default_status()),
        ..v
    };
    lemma_cells_rewritten_in_row(blank, v.rows[0], 0, n);
    let a = blank.cells_rewritten(v.rows[0], 0, n);
    let a1 = a.next_line(true);
    let b = ViewportModel { cursor: Vector2 { x: 0, ..a1.cursor }, ..a1 };
    assert(b.cursor == Vector2 { x: 0, y: 1 });
    assert(b.statuses[0] == LineStatus { length: n as usize, is_linebreak: true });
    assert(blank.rows_rewritten(v.rows, v.statuses, 0) == b.rows_rewritten(v.rows, v.statuses, 1));
    assert forall|c: int| 0 <= c < n implies #[trigger] b.rows[0][c] == v.rows[0][c] by {
        assert(b.rows[0][c] == a.rows[0][c]);
    }
    let fin = if m == 0 {
        b
    } else {
        lemma_cells_rewritten_in_row(b, v.rows[1], 0, m);
        let c = b.cells_rewritten(v.rows[1], 0, m);
        assert(b.rows_rewritten(v.rows, v.statuses, 1) == c.rows_rewritten(v.rows, v.statuses, 2));
        assert(c.rows_rewritten(v.rows, v.statuses, 2) == c);
        c
    };
    assert(b.rows_rewritten(v.rows, v.statuses, 1) == fin);
    let after = v.resized(new_size);
    assert(after == fin.cursor_set(v.cursor));
    assert(after.rows[0].take(n) =~= v.rows[0].take(n));
    assert(after.rows[1].take(m) =~= v.rows[1].take(m));
}

/// Rows `i..k` that each end in a line break, written back from the start of
/// row `i` of a screen with room below them, land one to a row: each on its
/// own row, from the first column, ending in a line break.
proof fn lemma_broken_rows_rewritten(b: ViewportModel, rows: Seq<Seq<Cell>>, statuses: Seq<LineStatus>, i: int, k: int)
    requires
        0 <= i <= k < b.size.y,
        b.cursor == (Vector2 { x: 0, y: i as usize }),
        b.rows.len() == b.size.y,
        b.statuses.len() == b.size.y,
        forall|r: int| i <= r < k ==> (#[trigger] b.rows[r]).len() == b.size.x,
        forall|r: int| i <= r < k ==> #[trigger] b.statuses[r] == default_status(),
        k <= rows.len(),
        statuses.len() == rows.len(),
        forall|r: int| i <= r < k ==> (#[trigger] statuses[r]).is_linebreak
            && statuses[r].length <= b.size.x && statuses[r].length <= rows[r].len(),
        forall|r: int| k <= r < rows.len() ==> (#[trigger] statuses[r]).length == 0 && !statuses[r].is_linebreak,
    ensures
        ({
            let fin = b.rows_rewritten(rows, statuses, i);
            &&& fin.rows.len() == b.rows.len()
            &&& fin.statuses.len() == b.statuses.len()
            &&& forall|r: int| 0 <= r < i ==> #[trigger] fin.rows[r] == b.rows[r]
            &&& forall|r: int| 0 <= r < i ==> #[trigger] fin.statuses[r] == b.statuses[r]
            &&& forall|r: int| i <= r < k ==> #[trigger] fin.statuses[r]
                == (LineStatus { length: statuses[r].length, is_linebreak: true })
            &&& forall|r: int, c: int| i <= r < k && 0 <= c < statuses[r].length ==> #[trigger] fin.rows[r][c] == rows[r][c]
            &&& forall|r: int| i <= r < k ==> (#[trigger] fin.rows[r]).len() == b.rows[r].len()
        }),
    decreases k - i,
{
    if i < k {
        let n = statuses[i].length as int;
        lemma_cells_rewritten_in_row(b, rows[i], 0, n);
        let a = b.cells_rewritten(rows[i], 0, n);
        let a1 = a.next_line(true);
        let b1 = ViewportModel { cursor: Vector2 { x: 0, ..a1.cursor }, ..a1 };
        assert(b.rows_rewritten(rows, statuses, i) == b1.rows_rewritten(rows, statuses, i + 1));
        assert(b1.statuses[i] == LineStatus { length: n as usize, is_linebreak: true });
        lemma_broken_rows_rewritten(b1, rows, statuses, i + 1, k);
        let fin = b1.rows_rewritten(rows, statuses, i + 1);
        assert(fin.rows[i] == b1.rows[i] && fin.statuses[i] == b1.statuses[i]);
        assert(b1.rows[i].len() == b.rows[i].len());
        assert forall|r: int, c: int| i <= r < k && 0 <= c < statuses[r].length implies #[trigger] fin.rows[r][c] == rows[r][c] by {
            if r == i {
                assert(fin.rows[i] == b1.rows[i]);
                assert(b1.rows[i][c] == a.rows[i][c]);
            }
        }
    } else {
        assert(b.rows_rewritten(rows, statuses, i) == b);
    }
}

/// Resizing keeps line breaks, whatever their number: where the first `k`
/// rows of a screen each end in a line break and nothing is written below
/// them, a resize to another size with more than `k` rows, wide enough for
/// each of them, leaves each of those rows on a row of its own, in order,
/// from the first column, still ending in a line break: no two of them are
/// joined.
pub proof fn lemma_resize_keeps_broken_rows_apart(v: ViewportModel, new_size: Vector2, k: int)
    requires
        new_size != v.size,
        0 <= k < new_size.y,
        k <= v.rows.len(),
        v.statuses.len() == v.rows.len(),
        forall|r: int| 0 <= r < k ==> (#[trigger] v.statuses[r]).is_linebreak
            && v.statuses[r].length <= new_size.x && v.statuses[r].length <= v.rows[r].len(),
        forall|r: int| k <= r < v.rows.len() ==> (#[trigger] v.statuses[r]).length == 0 && !v.statuses[r].is_linebreak,
    ensures
        forall|r: int| 0 <= r < k ==> #[trigger] v.resized(new_size).statuses[r]
            == (LineStatus { length: v.statuses[r].length, is_linebreak: true }),
        forall|r: int| 0 <= r < k ==> #[trigger] v.resized(new_size).rows[r].take(v.statuses[r].length as int)
            == v.rows[r].take(v.statuses[r].length as int),
{
    let blank = ViewportModel {
        size: new_size,
        cursor: Vector2 { x: 0, y: 0 },
        rows: Seq::new(new_size.y as nat, |r: int| blank_row(new_size.x as nat)),
        statuses: Seq::new(new_size.y as nat, |r: int| default_status()),
        ..v
    };
    lemma_broken_rows_rewritten(blank, v.rows, v.statuses, 0, k);
    let fin = blank.rows_rewritten(v.rows, v.statuses, 0);
    assert(v.resized(new_size) == fin.cursor_set(v.cursor));
    assert forall|r: int| 0 <= r < k implies #[trigger] v.resized(new_size).rows[r].take(v.statuses[r].length as int)
        == v.rows[r].take(v.statuses[r].length as int) by {
        let n = v.statuses[r].length as int;
        assert(fin.rows[r].len() == new_size.x);
        assert forall|c: int| 0 <= c < n implies #[trigger] fin.rows[r][c] == v.rows[r][c] by {}
        assert(v.resized(new_size).rows[r].take(n) =~= v.rows[r].take(n));
    }
}

/// A screen resized to `new_size` has that size, and its cursor is where it
/// was, held to the new screen (its column at most one past the last, its row
/// at most the last).
pub proof fn lemma_resized_size_and_cursor(v: ViewportModel, new_size: Vector2)
    requires
        new_size.y >= 1,
        v.cursor.x <= v.size.x,
        v.cursor.y < v.size.y,
    ensures
        v.resized(new_size).size == new_size,
        v.resized(new_size).cursor == (Vector2 {
            x: if v.cursor.x <= new_size.x { v.cursor.x } else { new_size.x },
            y: if v.cursor.y < new_size.y { v.cursor.y } else { (new_size.y - 1) as usize },
        }),
{
    if new_size != v.size {
        let blank = ViewportModel {
            size: new_size,
            cursor: Vector2 { x: 0, y: 0 },
            rows: Seq::new(new_size.y as nat, |r: int| blank_row(new_size.x as nat)),
            statuses: Seq::new(new_size.y as nat, |r: int| default_status()),
            ..v
        };
        lemma_rows_rewritten_size(blank, v.rows, v.statuses, 0);
    }
}

#[derive(Debug)]
pub struct Viewport {
    cursor: Vector2,
    size: Vector2,
    row_offset: usize,
    pen: Pen,
    default_pen: Pen,
    cells: Vec<Vec<Cell>>,
    row_status: Vec<LineStatus>,
    scrollback_buffer: Option<ScrollbackBuffer>,
    is_newline_carriage_return: bool,
    saved_cursor: Vector2,
}

pub const DEFAULT_VIEWPORT_WIDTH: usize = 128;
pub const DEFAULT_VIEWPORT_HEIGHT: usize = 128;

fn new_blank_row(width: usize) -> (r: Vec<Cell>)
    ensures
        r@ == blank_row(width as nat),
{
    let mut row: Vec<Cell> = Vec::with_capacity(width);
    let mut i: usize = 0;
    while i < width
        invariant
            i <= width,
            row@ == Seq::new(i as nat, |k: int| default_cell()),
        decreases width - i,
    {
        row.push(Cell::default());
        i = i + 1;
    }
    row
}

/// Appends `src[start..end]` to `out`.
fn push_range(out: &mut Vec<Cell>, src: &Vec<Cell>, start: usize, end: usize)
    requires
        start <= end <= src@.len(),
    ensures
        final(out)@ == old(out)@ + src@.subrange(start as int, end as int),
{
    let ghost o = out@;
    let mut i = start;
    while i < end
        invariant
            start <= i <= end <= src@.len(),
            out@ == o + src@.subrange(start as int, i as int),
        decreases end - i,
    {
        out.push(src[i]);
        proof { assert(out@ =~= o + src@.subrange(start as int, i + 1)); }
        i = i + 1;
    }
}

/// Appends `count` spaces written with `pen` to `out`.
fn push_spaces(out: &mut Vec<Cell>, count: usize, pen: Pen)
    ensures
        final(out)@ == old(out)@ + spaces(count as nat, pen),
{
    let ghost o = out@;
    let mut i: usize = 0;
    while i < count
        invariant
            i <= count,
            out@ == o + spaces(i as nat, pen),
        decreases count - i,
    {
        out.push(Cell { character: ' ', pen });
        proof { assert(out@ =~= o + spaces((i + 1) as nat, pen)); }
        i = i + 1;
    }
}

impl Viewport {
    /// Physical position of display row `r`.
    pub closed spec fn phys(&self, r: int) -> int {
        wrap_index(self.row_offset + r, self.size.y as int)
    }

    pub closed spec fn model(&self) -> ViewportModel {
        ViewportModel {
            size: self.size,
            cursor: self.cursor,
            rows: Seq::new(self.size.y as nat, |r: int| self.cells@[self.phys(r)]@),
            statuses: Seq::new(self.size.y as nat, |r: int| self.row_status@[self.phys(r)]),
            history: match self.scrollback_buffer { Some(b) => Some(b.model()), None => None },
            pen: self.pen,
            default_pen: self.default_pen,
            is_newline_carriage_return: self.is_newline_carriage_return,
            saved_cursor: self.saved_cursor,
        }
    }

    pub closed spec fn wf(&self) -> bool {
        &&& 1 <= self.size.x < usize::MAX
        &&& 1 <= self.size.y <= usize::MAX / 2
        &&& self.row_offset < self.size.y
        &&& self.cursor.x <= self.size.x
        &&& self.cursor.y < self.size.y
        &&& self.cells@.len() == self.size.y
        &&& self.row_status@.len() == self.size.y
        &&& forall|p: int| 0 <= p < self.size.y ==> (#[trigger] self.cells@[p])@.len() == self.size.x
        &&& forall|p: int| 0 <= p < self.size.y ==> (#[trigger] self.row_status@[p]).length <= self.size.x
        &&& self.scrollback_buffer matches Some(b) ==> b.wf()
    }

    /// The scrollback history of this screen, where it keeps one.
    pub fn get_scrollback_buffer(&self) -> (r: Option<&ScrollbackBuffer>)
        requires
            self.wf(),
        ensures
            r matches Some(b) ==> b.wf() && self.model().history == Some(b.model()),
            r is None ==> self.model().history is None,
    {
        self.scrollback_buffer.as_ref()
    }

    /// Gives the screen a history to keep the rows that scroll off its top,
    /// or takes it away.
    pub fn set_scrollback_buffer(&mut self, scrollback_buffer: Option<ScrollbackBuffer>)
        requires
            old(self).wf(),
            scrollback_buffer matches Some(b) ==> b.wf(),
        ensures
            final(self).wf(),
            final(self).model() == (ViewportModel {
                history: match scrollback_buffer { Some(b) => Some(b.model()), None => None },
                ..old(self).model()
            }),
    {
        self.scrollback_buffer = scrollback_buffer;
        proof {
            assert(self.model() =~= (ViewportModel {
                history: match scrollback_buffer { Some(b) => Some(b.model()), None => None },
                ..old(self).model()
            }));
        }
    }

    pub fn set_is_newline_carriage_return(&mut self, v: bool)
        requires
            old(self).wf(),
        ensures
            final(self).wf(),
            final(self).model() == (ViewportModel { is_newline_carriage_return: v, ..old(self).model() }),
    {
        self.is_newline_carriage_return = v;
        proof { assert(self.model() =~= (ViewportModel { is_newline_carriage_return: v, ..old(self).model() })); }
    }

    pub fn get_size(&self) -> (r: Vector2)
        ensures
            r == self.model().size,
    {
        self.size
    }

    pub fn get_cursor(&self) -> (r: Vector2)
        ensures
            r == self.model().cursor,
    {
        self.cursor
    }

    pub fn get_pen(&self) -> (r: Pen)
        ensures
            r == self.model().pen,
    {
        self.pen
    }

    pub fn set_pen(&mut self, pen: Pen)
        requires
            old(self).wf(),
        ensures
            final(self).wf(),
            final(self).model() == (ViewportModel { pen, ..old(self).model() }),
    {
        self.pen = pen;
        proof { assert(self.model() =~= (ViewportModel { pen, ..old(self).model() })); }
    }

    /// The remembered cursor position.
    pub fn get_saved_cursor(&self) -> (r: Vector2)
        ensures
            r == self.model().saved_cursor,
    {
        self.saved_cursor
    }

    pub fn get_default_pen(&self) -> (r: Pen)
        ensures
            r == self.model().default_pen,
    {
        self.default_pen
    }

    pub fn set_default_pen(&mut self, pen: Pen)
        requires
            old(self).wf(),
        ensures
            final(self).wf(),
            final(self).model() == (ViewportModel { default_pen: pen, ..old(self).model() }),
    {
        self.default_pen = pen;
        proof { assert(self.model() =~= (ViewportModel { default_pen: pen, ..old(self).model() })); }
    }

    /// Places the cursor at `cursor`, held to the screen: the column may be one
    /// past the last (text then wraps when the next cell is written).
    pub fn set_cursor(&mut self, cursor: Vector2)
        requires
            old(self).wf(),
        ensures
            final(self).wf(),
            final(self).model() == old(self).model().cursor_set(cursor),
    {
        let x = if cursor.x <= self.size.x { cursor.x } else { self.size.x };
        let y = if cursor.y <= self.size.y - 1 { cursor.y } else { self.size.y - 1 };
        self.cursor = Vector2 { x, y };
        proof { assert(self.model() =~= old(self).model().cursor_set(cursor)); }
    }

    /// Remembers the cursor position.
    pub fn save_cursor(&mut self)
        requires
            old(self).wf(),
        ensures
            final(self).wf(),
            final(self).model() == (ViewportModel { saved_cursor: old(self).model().cursor, ..old(self).model() }),
    {
        self.saved_cursor = self.cursor;
        proof { assert(self.model() =~= (ViewportModel { saved_cursor: old(self).model().cursor, ..old(self).model() })); }
    }

    /// Moves the cursor back to the remembered position, held to the screen.
    pub fn restore_cursor(&mut self)
        requires
            old(self).wf(),
        ensures
            final(self).wf(),
            final(self).model() == old(self).model().cursor_set(old(self).model().saved_cursor),
    {
        let saved = self.saved_cursor;
        self.set_cursor(saved);
    }

    fn get_row_index(&self, row: usize) -> (r: usize)
        requires
            self.wf(),
            row < self.size.y,
        ensures
            r == self.phys(row as int),
            r < self.size.y,
    {
        let i = self.row_offset + row;
        if i >= self.size.y { i - self.size.y } else { i }
    }

    /// Display row `row`: its cells and its status.
    pub fn get_row(&self, row: usize) -> (r: (&[Cell], LineStatus))
        requires
            self.wf(),
            row < self.model().size.y,
        ensures
            r.0@ == self.model().rows[row as int],
            r.1 == self.model().statuses[row as int],
    {
        let p = self.get_row_index(row);
        (self.cells[p].as_slice(), self.row_status[p])
    }

    fn eject_oldest_line_into_scrollbuffer(&mut self)
        requires
            old(self).wf(),
        ensures
            final(self).wf(),
            final(self).model() == old(self).model().ejected(),
    {
        let ghost m0 = self.model();
        let p = self.row_offset;
        let status = self.row_status[p];
        let line = vstd::slice::slice_subrange(self.cells[p].as_slice(), 0, status.length);
        proof {
            assert(self.phys(0) == p);
            assert(line@ =~= m0.rows[0].take(status.length as int));
        }
        match &mut self.scrollback_buffer {
            Some(history) => {
                history.extend_current_line(line);
                if status.is_linebreak {
                    history.advance_line();
                }
            },
            None => {},
        }
        let blank = new_blank_row(self.size.x);
        self.cells.set(p, blank);
        self.row_status.set(p, LineStatus::default());
        self.row_offset = if self.row_offset + 1 >= self.size.y { 0 } else { self.row_offset + 1 };
        proof {
            let m1 = self.model();
            let e = m0.ejected();
            assert forall|r: int| 0 <= r < self.size.y implies self.phys(r) == (if r + 1 < self.size.y { wrap_index(p + r + 1, self.size.y as int) } else { p as int }) by {}
            assert(m1.rows =~= e.rows);
            assert(m1.statuses =~= e.statuses);
        }
    }

    fn next_line_cursor(&mut self, is_linebreak: bool)
        requires
            old(self).wf(),
        ensures
            final(self).wf(),
            final(self).model() == old(self).model().next_line(is_linebreak),
    {
        let ghost m0 = self.model();
        if is_linebreak {
            let curr_row = self.get_row_index(self.cursor.y);
            let status = self.row_status[curr_row];
            self.row_status.set(curr_row, LineStatus { is_linebreak: true, ..status });
            proof {
                assert(self.model().statuses =~= m0.statuses.update(m0.cursor.y as int,
                    LineStatus { is_linebreak: true, ..m0.statuses[m0.cursor.y as int] }));
            }
        }
        self.cursor.y = self.cursor.y + 1;
        if self.cursor.y == self.size.y {
            self.cursor.y = self.size.y - 1;
            self.eject_oldest_line_into_scrollbuffer();
        }
    }

    fn wrap_cursor(&mut self)
        requires
            old(self).wf(),
        ensures
            final(self).wf(),
            final(self).cursor.x < final(self).size.x,
            final(self).model() == (if old(self).model().cursor.x == old(self).model().size.x {
                let n = old(self).model().next_line(false);
                ViewportModel { cursor: Vector2 { x: 0, ..n.cursor }, ..n }
            } else {
                old(self).model()
            }),
    {
        if self.cursor.x == self.size.x {
            self.next_line_cursor(false);
            self.cursor.x = 0;
        }
    }

    fn write_cell(&mut self, cell: Cell)
        requires
            old(self).wf(),
        ensures
            final(self).wf(),
            final(self).model() == old(self).model().written(cell),
    {
        self.wrap_cursor();
        let ghost m1 = self.model();
        let row = self.get_row_index(self.cursor.y);
        let status = self.row_status[row];
        let length = if status.length >= self.cursor.x + 1 { status.length } else { self.cursor.x + 1 };
        self.row_status.set(row, LineStatus { length, ..status });
        self.cells[row].set(self.cursor.x, cell);
        self.cursor.x = self.cursor.x + 1;
        proof {
            let y = m1.cursor.y as int;
            let x = m1.cursor.x as int;
            assert(self.model().rows =~= m1.rows.update(y, m1.rows[y].update(x, cell)));
            assert(self.model().statuses =~= m1.statuses.update(y, LineStatus { length, ..m1.statuses[y] }));
        }
    }

    /// Interprets one byte of plain text: line feed, carriage return and
    /// backspace move the cursor, printable characters are written with the
    /// pen, anything else is ignored.
    pub fn write_ascii(&mut self, b: u8)
        requires
            old(self).wf(),
        ensures
            final(self).wf(),
            final(self).model() == old(self).model().written_ascii(b),
    {
        if b == 0x0a {
            self.next_line_cursor(true);
            if self.is_newline_carriage_return {
                self.cursor.x = 0;
            }
        } else if b == 0x0d {
            self.cursor.x = 0;
        } else if b == 0x08 {
            self.cursor.x = if self.cursor.x >= 1 { self.cursor.x - 1 } else { 0 };
        } else if 0x20 <= b && b <= 0x7e {
            self.write_utf8(b as char);
        }
    }

    /// Writes `character` with the pen at the cursor.
    pub fn write_utf8(&mut self, character: char)
        requires
            old(self).wf(),
        ensures
            final(self).wf(),
            final(self).model() == old(self).model().written(Cell { character, pen: old(self).model().pen }),
    {
        let cell = Cell { character, pen: self.pen };
        self.write_cell(cell);
    }


    fn copy_row(row: &Vec<Cell>) -> (r: Vec<Cell>)
        ensures
            r@ == row@,
    {
        let mut out: Vec<Cell> = Vec::with_capacity(row.len());
        let mut i: usize = 0;
        while i < row.len()
            invariant
                i <= row@.len(),
                out@ == row@.take(i as int),
            decreases row@.len() - i,
        {
            out.push(row[i]);
            proof { assert(out@ =~= row@.take(i + 1)); }
            i = i + 1;
        }
        proof { assert(row@.take(row@.len() as int) =~= row@); }
        out
    }

    /// Replaces display row `row` by a copy of display row `src_row`.
    fn copy_row_within(&mut self, src_row: usize, dst_row: usize)
        requires
            old(self).wf(),
            src_row < old(self).size.y,
            dst_row < old(self).size.y,
        ensures
            final(self).wf(),
            final(self).model() == old(self).model().row_replaced(dst_row as int,
                old(self).model().rows[src_row as int], old(self).model().statuses[src_row as int]),
    {
        let ghost m0 = self.model();
        let src = self.get_row_index(src_row);
        let dst = self.get_row_index(dst_row);
        let copy = Self::copy_row(&self.cells[src]);
        let status = self.row_status[src];
        self.cells.set(dst, copy);
        self.row_status.set(dst, status);
        proof {
            assert forall|r: int| 0 <= r < self.size.y && r != dst_row implies self.phys(r) != dst by {}
            assert(self.model() =~= m0.row_replaced(dst_row as int, m0.rows[src_row as int], m0.statuses[src_row as int]));
        }
    }

    /// Replaces display row `row` by a blank row with `status`.
    fn clear_row(&mut self, row: usize, status: LineStatus)
        requires
            old(self).wf(),
            row < old(self).size.y,
            status.length <= old(self).size.x,
        ensures
            final(self).wf(),
            final(self).model() == old(self).model().row_replaced(row as int, blank_row(old(self).size.x as nat), status),
    {
        let ghost m0 = self.model();
        let p = self.get_row_index(row);
        let blank = new_blank_row(self.size.x);
        self.cells.set(p, blank);
        self.row_status.set(p, status);
        proof {
            assert forall|r: int| 0 <= r < self.size.y && r != row implies self.phys(r) != p by {}
            assert(self.model() =~= m0.row_replaced(row as int, blank_row(m0.size.x as nat), status));
        }
    }

    /// Replaces the cells `start..end` of display row `row` by spaces written with `pen`.
    pub fn erase_cells(&mut self, row: usize, start: usize, end: usize, pen: Pen)
        requires
            old(self).wf(),
            row < old(self).model().size.y,
            start <= end <= old(self).model().size.x,
        ensures
            final(self).wf(),
            final(self).model() == old(self).model().erased(row as int, start as int, end as int, pen),
    {
        let ghost m0 = self.model();
        let p = self.get_row_index(row);
        let mut i = start;
        proof {
            assert(m0.rows[row as int] == self.cells@[p as int]@);
            assert(m0.erased(row as int, start as int, start as int, pen).rows[row as int] =~= m0.rows[row as int]);
            assert(m0.erased(row as int, start as int, start as int, pen).rows =~= m0.rows);
            assert(self.model() =~= m0.erased(row as int, start as int, start as int, pen));
        }
        while i < end
            invariant
                self.wf(),
                start <= i <= end <= self.size.x,
                p == self.phys(row as int),
                row < self.size.y,
                m0 == old(self).model(),
                m0.rows.len() == self.size.y,
                m0.rows[row as int].len() == self.size.x,
                self.model() == m0.erased(row as int, start as int, i as int, pen),
            decreases end - i,
        {
            let ghost before = self.model();
            let ghost before_row = self.cells@[p as int]@;
            proof {
                assert(before.rows[row as int] == before_row);
                let e = m0.erased(row as int, start as int, i as int, pen);
                assert(before == e);
                assert forall|k: int| 0 <= k < m0.rows[row as int].len() implies #[trigger] before_row[k] ==
                    (if start <= k < i { Cell { character: ' ', pen } } else { m0.rows[row as int][k] }) by {
                    assert(e.rows[row as int][k] == before_row[k]);
                }
                assert(before_row.len() == m0.rows[row as int].len());
            }
            self.cells[p].set(i, Cell { character: ' ', pen });
            proof {
                assert(self.cells@[p as int]@ == before_row.update(i as int, Cell { character: ' ', pen }));
                assert(self.model().rows[row as int] == self.cells@[p as int]@);
                let e1 = m0.erased(row as int, start as int, i + 1, pen);
                assert forall|k: int| 0 <= k < m0.rows[row as int].len() implies #[trigger] self.cells@[p as int]@[k] ==
                    e1.rows[row as int][k] by {
                    if k != i {
                        assert(before_row[k] == (if start <= k < i { Cell { character: ' ', pen } } else { m0.rows[row as int][k] }));
                    }
                }
                assert forall|r: int| 0 <= r < self.size.y && r != row implies self.phys(r) != p by {}
                assert(self.model().rows[row as int] =~= m0.erased(row as int, start as int, i + 1, pen).rows[row as int]);
                assert forall|r: int| 0 <= r < self.size.y && r != row implies
                    #[trigger] self.model().rows[r] == e1.rows[r] by {
                    assert(self.model().rows[r] == before.rows[r]);
                }
                assert(self.model().rows =~= m0.erased(row as int, start as int, i + 1, pen).rows);
                assert(self.model() =~= m0.erased(row as int, start as int, i + 1, pen));
            }
            i = i + 1;
        }
    }

    /// Replaces the status of display row `row`.
    pub fn set_row_status(&mut self, row: usize, status: LineStatus)
        requires
            old(self).wf(),
            row < old(self).model().size.y,
            status.length <= old(self).model().size.x,
        ensures
            final(self).wf(),
            final(self).model() == old(self).model().status_set(row as int, status),
    {
        let ghost m0 = self.model();
        let p = self.get_row_index(row);
        self.row_status.set(p, status);
        proof {
            assert forall|r: int| 0 <= r < self.size.y && r != row implies self.phys(r) != p by {}
            assert(self.model() =~= m0.status_set(row as int, status));
        }
    }

    /// Moves the screen one row down; the top row becomes blank and ends in a line break.
    pub fn scroll_down(&mut self)
        requires
            old(self).wf(),
        ensures
            final(self).wf(),
            final(self).model() == old(self).model().scrolled_down(),
    {
        let ghost m0 = self.model();
        let ghost o0 = self.row_offset;
        let sy = self.size.y;
        let o = self.row_offset + sy - 1;
        self.row_offset = if o >= sy { o - sy } else { o };
        let clear_row = self.row_offset;
        let blank = new_blank_row(self.size.x);
        self.cells.set(clear_row, blank);
        self.row_status.set(clear_row, LineStatus { is_linebreak: true, length: 0 });
        proof {
            assert forall|r: int| 1 <= r < sy implies self.phys(r) == wrap_index(o0 + r - 1, sy as int) by {}
            assert(self.model() =~= m0.scrolled_down());
        }
    }


    /// Replaces the cells of display row `row`.
    pub fn set_row_cells(&mut self, row: usize, cells: Vec<Cell>)
        requires
            old(self).wf(),
            row < old(self).model().size.y,
            cells@.len() == old(self).model().size.x,
        ensures
            final(self).wf(),
            final(self).model() == (ViewportModel {
                rows: old(self).model().rows.update(row as int, cells@), ..old(self).model() }),
    {
        let ghost m0 = self.model();
        let ghost c = cells@;
        let p = self.get_row_index(row);
        self.cells.set(p, cells);
        proof {
            assert forall|r: int| 0 <= r < self.size.y && r != row implies self.phys(r) != p by {}
            assert(self.model() =~= ViewportModel { rows: m0.rows.update(row as int, c), ..m0 });
        }
    }

    /// Inserts up to `total` blank rows ending in line breaks at the cursor
    /// row, pushing the rows below down and off the bottom.
    pub fn insert_lines(&mut self, total: usize)
        requires
            old(self).wf(),
        ensures
            final(self).wf(),
            final(self).model() == old(self).model().lines_inserted(total as nat),
    {
        let ghost m0 = self.model();
        let y = self.cursor.y;
        let sy = self.size.y;
        let max_rows = sy - y;
        let t = if total <= max_rows { total } else { max_rows };
        let shift = max_rows - t;
        let mut i = shift;
        proof {
            assert(m0.rows =~= Seq::new(sy as nat, |r: int| if y + i + t <= r < sy { m0.rows[r - t] } else { m0.rows[r] }));
            assert(m0.statuses =~= Seq::new(sy as nat, |r: int| if y + i + t <= r < sy { m0.statuses[r - t] } else { m0.statuses[r] }));
        }
        while i > 0
            invariant
                self.wf(),
                m0 == old(self).model(),
                i <= shift,
                y == m0.cursor.y,
                sy == m0.size.y,
                max_rows == sy - y,
                t <= max_rows,
                shift == max_rows - t,
                self.model() == (ViewportModel {
                    rows: Seq::new(sy as nat, |r: int| if y + i + t <= r < sy { m0.rows[r - t] } else { m0.rows[r] }),
                    statuses: Seq::new(sy as nat, |r: int| if y + i + t <= r < sy { m0.statuses[r - t] } else { m0.statuses[r] }),
                    ..m0
                }),
            decreases i,
        {
            i = i - 1;
            self.copy_row_within(y + i, y + i + t);
            proof {
                assert(self.model().rows =~= Seq::new(sy as nat, |r: int| if y + i + t <= r < sy { m0.rows[r - t] } else { m0.rows[r] }));
                assert(self.model().statuses =~= Seq::new(sy as nat, |r: int| if y + i + t <= r < sy { m0.statuses[r - t] } else { m0.statuses[r] }));
            }
        }
        let mut k: usize = 0;
        while k < t
            invariant
                self.wf(),
                m0 == old(self).model(),
                k <= t,
                y == m0.cursor.y,
                sy == m0.size.y,
                max_rows == sy - y,
                t <= max_rows,
                self.model() == (ViewportModel {
                    rows: Seq::new(sy as nat, |r: int| if y + t <= r < sy { m0.rows[r - t] }
                        else if y <= r < y + k { blank_row(m0.size.x as nat) } else { m0.rows[r] }),
                    statuses: Seq::new(sy as nat, |r: int| if y + t <= r < sy { m0.statuses[r - t] }
                        else if y <= r < y + k { empty_break_status() } else { m0.statuses[r] }),
                    ..m0
                }),
            decreases t - k,
        {
            self.clear_row(y + k, LineStatus { length: 0, is_linebreak: true });
            proof {
                assert(self.model().rows =~= Seq::new(sy as nat, |r: int| if y + t <= r < sy { m0.rows[r - t] }
                    else if y <= r < y + k + 1 { blank_row(m0.size.x as nat) } else { m0.rows[r] }));
                assert(self.model().statuses =~= Seq::new(sy as nat, |r: int| if y + t <= r < sy { m0.statuses[r - t] }
                    else if y <= r < y + k + 1 { empty_break_status() } else { m0.statuses[r] }));
            }
            k = k + 1;
        }
        proof {
            let e = m0.lines_inserted(total as nat);
            assert(self.model().rows =~= e.rows);
            assert(self.model().statuses =~= e.statuses);
            assert(self.model() =~= e);
        }
    }

    /// Removes up to `total` rows from the cursor row on, pulling the rows
    /// below up; blank rows with no line break fill up the bottom.
    pub fn delete_lines(&mut self, total: usize)
        requires
            old(self).wf(),
        ensures
            final(self).wf(),
            final(self).model() == old(self).model().lines_deleted(total as nat),
    {
        let ghost m0 = self.model();
        let y = self.cursor.y;
        let sy = self.size.y;
        let max_rows = sy - y;
        let t = if total <= max_rows { total } else { max_rows };
        let shift = max_rows - t;
        let mut i: usize = 0;
        proof {
            assert(m0.rows =~= Seq::new(sy as nat, |r: int| if y <= r < y + i { m0.rows[r + t] } else { m0.rows[r] }));
            assert(m0.statuses =~= Seq::new(sy as nat, |r: int| if y <= r < y + i { m0.statuses[r + t] } else { m0.statuses[r] }));
        }
        while i < shift
            invariant
                self.wf(),
                m0 == old(self).model(),
                i <= shift,
                y == m0.cursor.y,
                sy == m0.size.y,
                max_rows == sy - y,
                t <= max_rows,
                shift == max_rows - t,
                self.model() == (ViewportModel {
                    rows: Seq::new(sy as nat, |r: int| if y <= r < y + i { m0.rows[r + t] } else { m0.rows[r] }),
                    statuses: Seq::new(sy as nat, |r: int| if y <= r < y + i { m0.statuses[r + t] } else { m0.statuses[r] }),
                    ..m0
                }),
            decreases shift - i,
        {
            self.copy_row_within(y + i + t, y + i);
            proof {
                assert(self.model().rows =~= Seq::new(sy as nat, |r: int| if y <= r < y + i + 1 { m0.rows[r + t] } else { m0.rows[r] }));
                assert(self.model().statuses =~= Seq::new(sy as nat, |r: int| if y <= r < y + i + 1 { m0.statuses[r + t] } else { m0.statuses[r] }));
            }
            i = i + 1;
        }
        let mut k: usize = 0;
        while k < t
            invariant
                self.wf(),
                m0 == old(self).model(),
                k <= t,
                y == m0.cursor.y,
                sy == m0.size.y,
                max_rows == sy - y,
                t <= max_rows,
                shift == max_rows - t,
                self.model() == (ViewportModel {
                    rows: Seq::new(sy as nat, |r: int| if y <= r < y + shift { m0.rows[r + t] }
                        else if y + shift <= r < y + shift + k { blank_row(m0.size.x as nat) } else { m0.rows[r] }),
                    statuses: Seq::new(sy as nat, |r: int| if y <= r < y + shift { m0.statuses[r + t] }
                        else if y + shift <= r < y + shift + k { default_status() } else { m0.statuses[r] }),
                    ..m0
                }),
            decreases t - k,
        {
            self.clear_row(y + shift + k, LineStatus { length: 0, is_linebreak: false });
            proof {
                assert(self.model().rows =~= Seq::new(sy as nat, |r: int| if y <= r < y + shift { m0.rows[r + t] }
                    else if y + shift <= r < y + shift + k + 1 { blank_row(m0.size.x as nat) } else { m0.rows[r] }));
                assert(self.model().statuses =~= Seq::new(sy as nat, |r: int| if y <= r < y + shift { m0.statuses[r + t] }
                    else if y + shift <= r < y + shift + k + 1 { default_status() } else { m0.statuses[r] }));
            }
            k = k + 1;
        }
        proof {
            let e = m0.lines_deleted(total as nat);
            assert(self.model().rows =~= e.rows);
            assert(self.model().statuses =~= e.statuses);
            assert(self.model() =~= e);
        }
    }

    /// Moves the top row into the history.
    pub fn scroll_up(&mut self)
        requires
            old(self).wf(),
        ensures
            final(self).wf(),
            final(self).model() == old(self).model().ejected(),
    {
        self.eject_oldest_line_into_scrollbuffer();
    }

    /// Fills display rows `start..end` with spaces written with `pen`, each
    /// marked as written to the last column and ending in a line break.
    pub fn blank_rows(&mut self, start: usize, end: usize, pen: Pen)
        requires
            old(self).wf(),
            start <= end <= old(self).model().size.y,
        ensures
            final(self).wf(),
            final(self).model() == old(self).model().rows_blanked(start as int, end as int, pen),
    {
        let ghost m0 = self.model();
        let width = self.size.x;
        let mut r = start;
        proof {
            assert(m0.rows_blanked(start as int, start as int, pen).rows =~= m0.rows);
            assert(m0.rows_blanked(start as int, start as int, pen).statuses =~= m0.statuses);
            assert(m0.rows_blanked(start as int, start as int, pen) =~= m0);
        }
        while r < end
            invariant
                self.wf(),
                start <= r <= end <= self.size.y,
                width == self.size.x,
                m0 == old(self).model(),
                m0.size == self.model().size,
                self.model() == m0.rows_blanked(start as int, r as int, pen),
            decreases end - r,
        {
            proof { self.lemma_model_shape(); }
            let ghost before = self.model();
            self.erase_cells(r, 0, width, pen);
            self.set_row_status(r, LineStatus { length: width, is_linebreak: true });
            proof {
                let n = self.model();
                let e = m0.rows_blanked(start as int, r + 1, pen);
                assert(before.rows[r as int].len() == width);
                assert(n.rows[r as int] =~= spaces(width as nat, pen));
                assert(n.rows =~= e.rows);
                assert(n.statuses =~= e.statuses);
                assert(n =~= e);
            }
            r = r + 1;
        }
    }

    /// Inserts up to `total` spaces written with `pen` at column `x` of
    /// display row `row`, pushing the cells behind to the right.
    pub fn insert_spaces(&mut self, row: usize, x: usize, total: usize, pen: Pen)
        requires
            old(self).wf(),
            row < old(self).model().size.y,
            x <= old(self).model().size.x,
        ensures
            final(self).wf(),
            final(self).model() == old(self).model().spaces_inserted(row as int, x as int, total as nat, pen),
    {
        let ghost m0 = self.model();
        proof { self.lemma_model_shape(); }
        let width = self.size.x;
        let t = if total <= width - x { total } else { width - x };
        let p = self.get_row_index(row);
        let status = self.row_status[p];
        proof {
            assert(status == m0.statuses[row as int]);
            assert(self.model().statuses[row as int].length <= width);
        }
        let mut cells: Vec<Cell> = Vec::with_capacity(width);
        push_range(&mut cells, &self.cells[p], 0, x);
        push_spaces(&mut cells, t, pen);
        push_range(&mut cells, &self.cells[p], x, width - t);
        let length = if t <= width - status.length { status.length + t } else { width };
        proof {
            assert(self.cells@[p as int]@ == m0.rows[row as int]);
            assert(cells@ =~= m0.rows[row as int].take(x as int) + spaces(t as nat, pen)
                + m0.rows[row as int].subrange(x as int, width - t));
        }
        self.set_row_cells(row, cells);
        self.set_row_status(row, LineStatus { length, ..status });
        proof { assert(self.model() =~= m0.spaces_inserted(row as int, x as int, total as nat, pen)); }
    }

    /// Removes up to `total` cells after column `x` of display row `row`,
    /// moving the cells behind to the left; the last ones stay as they were.
    pub fn delete_characters(&mut self, row: usize, x: usize, total: usize)
        requires
            old(self).wf(),
            row < old(self).model().size.y,
            x < old(self).model().size.x,
        ensures
            final(self).wf(),
            final(self).model() == old(self).model().chars_deleted(row as int, x as int, total as nat),
    {
        let ghost m0 = self.model();
        proof { self.lemma_model_shape(); }
        let width = self.size.x;
        let start = x + 1;
        let t = if total <= width - start { total } else { width - start };
        let p = self.get_row_index(row);
        let status = self.row_status[p];
        proof { assert(status == m0.statuses[row as int]); }
        let mut cells: Vec<Cell> = Vec::with_capacity(width);
        push_range(&mut cells, &self.cells[p], 0, start);
        push_range(&mut cells, &self.cells[p], start + t, width);
        push_range(&mut cells, &self.cells[p], width - t, width);
        let length = if status.length >= t { status.length - t } else { 0 };
        proof {
            assert(self.cells@[p as int]@ == m0.rows[row as int]);
        }
        self.set_row_cells(row, cells);
        self.set_row_status(row, LineStatus { length, ..status });
        proof { assert(self.model() =~= m0.chars_deleted(row as int, x as int, total as nat)); }
    }

    /// A well-formed screen has a size within bounds, a cursor on it (its
    /// column may be one past the last), and rows as wide as the screen that
    /// are written no further than their width.
    pub proof fn lemma_model_shape(&self)
        requires
            self.wf(),
        ensures
            1 <= self.model().size.x < usize::MAX,
            1 <= self.model().size.y <= usize::MAX / 2,
            self.model().cursor.x <= self.model().size.x,
            self.model().cursor.y < self.model().size.y,
            self.model().rows.len() == self.model().size.y,
            self.model().statuses.len() == self.model().size.y,
            forall|r: int| 0 <= r < self.model().size.y ==> (#[trigger] self.model().rows[r]).len() == self.model().size.x,
            forall|r: int| 0 <= r < self.model().size.y ==> (#[trigger] self.model().statuses[r]).length <= self.model().size.x,
    {
        assert forall|r: int| 0 <= r < self.size.y implies (#[trigger] self.model().rows[r]).len() == self.size.x by {
            assert(0 <= self.phys(r) < self.size.y);
        }
        assert forall|r: int| 0 <= r < self.size.y implies (#[trigger] self.model().statuses[r]).length <= self.size.x by {
            assert(0 <= self.phys(r) < self.size.y);
        }
    }

    /// Copies the rows and statuses out in display order.
    fn rows_in_display_order(&self) -> (r: (Vec<Vec<Cell>>, Vec<LineStatus>))
        requires
            self.wf(),
        ensures
            r.0@.len() == self.size.y,
            forall|k: int| 0 <= k < self.size.y ==> (#[trigger] r.0@[k])@ == self.model().rows[k],
            r.1@ == self.model().statuses,
    {
        let mut rows: Vec<Vec<Cell>> = Vec::new();
        let mut statuses: Vec<LineStatus> = Vec::new();
        let mut r: usize = 0;
        while r < self.size.y
            invariant
                self.wf(),
                r <= self.size.y,
                rows@.len() == r,
                forall|k: int| 0 <= k < r ==> (#[trigger] rows@[k])@ == self.model().rows[k],
                statuses@ == self.model().statuses.take(r as int),
            decreases self.size.y - r,
        {
            let p = self.get_row_index(r);
            rows.push(Self::copy_row(&self.cells[p]));
            statuses.push(self.row_status[p]);
            proof { assert(statuses@ =~= self.model().statuses.take(r + 1)); }
            r = r + 1;
        }
        proof { assert(statuses@ =~= self.model().statuses); }
        (rows, statuses)
    }

    /// Resizes the screen. The written part of each row is written back in
    /// order into a blank screen of the new size, so that long rows wrap and
    /// rows that no longer fit move into the history; the cursor then goes
    /// back where it was, held to the new screen. Nothing happens when the
    /// size is unchanged.
    pub fn set_size(&mut self, new_size: Vector2)
        requires
            old(self).wf(),
            1 <= new_size.x < usize::MAX,
            1 <= new_size.y <= usize::MAX / 2,
        ensures
            final(self).wf(),
            final(self).model() == old(self).model().resized(new_size),
    {
        if new_size.x == self.size.x && new_size.y == self.size.y {
            return;
        }
        let ghost m0 = self.model();
        let old_cursor = self.cursor;
        let old_height = self.size.y;
        let (old_rows, old_statuses) = self.rows_in_display_order();
        let mut cells: Vec<Vec<Cell>> = Vec::new();
        let mut statuses: Vec<LineStatus> = Vec::new();
        let mut r: usize = 0;
        while r < new_size.y
            invariant
                r <= new_size.y,
                cells@.len() == r,
                statuses@.len() == r,
                forall|k: int| 0 <= k < r ==> (#[trigger] cells@[k])@ == blank_row(new_size.x as nat),
                forall|k: int| 0 <= k < r ==> #[trigger] statuses@[k] == default_status(),
            decreases new_size.y - r,
        {
            cells.push(new_blank_row(new_size.x));
            statuses.push(LineStatus::default());
            r = r + 1;
        }
        self.size = new_size;
        self.cells = cells;
        self.row_status = statuses;
        self.row_offset = 0;
        self.cursor = Vector2 { x: 0, y: 0 };
        let ghost blank = ViewportModel {
            size: new_size,
            cursor: Vector2 { x: 0, y: 0 },
            rows: Seq::new(new_size.y as nat, |r: int| blank_row(new_size.x as nat)),
            statuses: Seq::new(new_size.y as nat, |r: int| default_status()),
            ..m0
        };
        proof {
            assert(self.model().rows =~= blank.rows);
            assert(self.model().statuses =~= blank.statuses);
            assert(self.model() =~= blank);
        }
        let mut i: usize = 0;
        let mut stopped = false;
        while i < old_height
            invariant
                self.wf(),
                i <= old_height,
                old_height == m0.size.y,
                m0.rows.len() == old_height,
                m0.statuses.len() == old_height,
                old_rows@.len() == old_height,
                forall|k: int| 0 <= k < old_height ==> (#[trigger] old_rows@[k])@ == m0.rows[k],
                forall|k: int| 0 <= k < old_height ==> (#[trigger] m0.rows[k]).len() == m0.size.x,
                forall|k: int| 0 <= k < old_height ==> (#[trigger] m0.statuses[k]).length <= m0.size.x,
                old_statuses@ == m0.statuses,
                stopped ==> i == old_height,
                blank.rows_rewritten(m0.rows, m0.statuses, 0) == (if stopped { self.model() }
                    else { self.model().rows_rewritten(m0.rows, m0.statuses, i as int) }),
            decreases old_height - i,
        {
            let status = old_statuses[i];
            if status.length == 0 && !status.is_linebreak {
                stopped = true;
                i = old_height;
            } else {
                let ghost mi = self.model();
                let ghost row = m0.rows[i as int];
                let mut j: usize = 0;
                while j < status.length
                    invariant
                        self.wf(),
                        j <= status.length,
                        i < old_height,
                        old_rows@.len() == old_height,
                        row == old_rows@[i as int]@,
                        status.length <= row.len(),
                        mi.cells_rewritten(row, 0, status.length as int)
                            == self.model().cells_rewritten(row, j as int, status.length as int),
                    decreases status.length - j,
                {
                    let cell = old_rows[i][j];
                    self.write_cell(cell);
                    j = j + 1;
                }
                let ghost m1 = self.model();
                proof {
                    assert(m1.cells_rewritten(row, status.length as int, status.length as int) == m1);
                    assert(mi.cells_rewritten(row, 0, status.length as int) == m1);
                }
                if status.is_linebreak {
                    self.next_line_cursor(true);
                    let ghost nl = self.model();
                    self.cursor.x = 0;
                    proof { assert(self.model() =~= ViewportModel { cursor: Vector2 { x: 0, ..nl.cursor }, ..nl }); }
                }
                proof {
                    let ghost n = self.model();
                    assert(m0.statuses[i as int] == status);
                    assert(m0.rows[i as int] == row);
                    assert(mi.rows_rewritten(m0.rows, m0.statuses, i as int)
                        == n.rows_rewritten(m0.rows, m0.statuses, i + 1));
                }
                i = i + 1;
            }
        }
        self.set_cursor(old_cursor);
    }

    /// A blank screen of `size` without a history, cursor at the top left.
    fn with_size(size: Vector2) -> (r: Self)
        requires
            1 <= size.x < usize::MAX,
            1 <= size.y <= usize::MAX / 2,
        ensures
            r.wf(),
            r.model() == blank_model(size, None),
    {
        let mut cells: Vec<Vec<Cell>> = Vec::new();
        let mut statuses: Vec<LineStatus> = Vec::new();
        let mut r: usize = 0;
        while r < size.y
            invariant
                r <= size.y,
                cells@.len() == r,
                statuses@.len() == r,
                forall|k: int| 0 <= k < r ==> (#[trigger] cells@[k])@ == blank_row(size.x as nat),
                forall|k: int| 0 <= k < r ==> #[trigger] statuses@[k] == default_status(),
            decreases size.y - r,
        {
            cells.push(new_blank_row(size.x));
            statuses.push(LineStatus::default());
            r = r + 1;
        }
        let v = Viewport {
            cursor: Vector2 { x: 0, y: 0 },
            size,
            row_offset: 0,
            pen: Pen::default(),
            default_pen: Pen::default(),
            cells,
            row_status: statuses,
            scrollback_buffer: None,
            is_newline_carriage_return: false,
            saved_cursor: Vector2 { x: 0, y: 0 },
        };
        proof { assert(v.model() =~= blank_model(size, None)); }
        v
    }
}

/// A blank screen of `size` with default pens, keeping the history `history`.
pub open spec fn blank_model(size: Vector2, history: Option<ScrollbackModel>) -> ViewportModel {
    ViewportModel {
        size,
        cursor: Vector2 { x: 0, y: 0 },
        rows: Seq::new(size.y as nat, |r: int| blank_row(size.x as nat)),
        statuses: Seq::new(size.y as nat, |r: int| default_status()),
        history,
        pen: default_pen(),
        default_pen: default_pen(),
        is_newline_carriage_return: false,
        saved_cursor: Vector2 { x: 0, y: 0 },
    }
}

/// The size of a new screen.
pub open spec fn default_viewport_size() -> Vector2 {
    Vector2 { x: DEFAULT_VIEWPORT_WIDTH, y: DEFAULT_VIEWPORT_HEIGHT }
}

impl Default for Viewport {
    /// A blank screen of 128 by 128 cells that keeps no history.
    fn default() -> (r: Self)
        ensures
            r.wf(),
            r.model() == blank_model(default_viewport_size(), None),
    {
        Self::with_size(Vector2 { x: DEFAULT_VIEWPORT_WIDTH, y: DEFAULT_VIEWPORT_HEIGHT })
    }
}

} // verus!
