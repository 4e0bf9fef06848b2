//! History of the lines that scrolled off the top of the screen. Cells live
//! in one ring and lines (start and length into that ring) in another; when
//! either ring is full the oldest entries give way.
use vstd::prelude::*;
use crate::circular_buffer::{offset_from, CircularBuffer, get_allocation_granularity, wrap_index, wrapped_run, wrapped_write};
use crate::primitives::{Cell, default_cell};

verus! {

/// A line of the history: where its cells start in the cell ring and how many there are.
#[derive(Clone, Copy, Debug, PartialEq, Eq, Structural)]
pub struct Line {
    pub start: usize,
    pub length: usize,
}

impl Line {
    pub open spec fn start(self) -> nat {
        self.start as nat
    }

    pub open spec fn length(self) -> nat {
        self.length as nat
    }

    pub fn get_start(&self) -> (r: usize)
        ensures
            r == self.start(),
    {
        self.start
    }

    pub fn get_length(&self) -> (r: usize)
        ensures
            r == self.length(),
    {
        self.length
    }
}

impl Default for Line {
    fn default() -> (r: Self)
        ensures
            r.start() == 0,
            r.length() == 0,
    {
        Line { start: 0, length: 0 }
    }
}

/// Whether ring position `s` lies in the window `w_start..w_end` of the doubled index space.
pub open spec fn in_write_window(s: int, w_start: int, w_end: int, c: int) -> bool {
    let shifted = if s < w_start { s + c } else { s };
    shifted < w_end
}

/// How many of the older lines (all but the last) the write of the window
/// `w_start..w_end` removes: from the oldest on, each line whose start lies in
/// the window, stopping at the first that does not.
pub open spec fn evicted_count(lines: Seq<Line>, w_start: int, w_end: int, c: int) -> nat
    decreases lines.len(),
{
    if lines.len() <= 1 {
        0
    } else if in_write_window(lines[0].start() as int, w_start, w_end, c) {
        1 + evicted_count(lines.drop_first(), w_start, w_end, c)
    } else {
        0
    }
}

/// The last line after `n` more cells were appended to it, in a cell ring of `c`
/// cells: where it grows past the ring it keeps only its last `c` cells.
pub open spec fn grown_line(line: Line, n: nat, c: nat) -> (nat, nat) {
    let length = line.length() + n;
    if length > c {
        (wrap_index(line.start() + (length - c), c as int) as nat, c)
    } else {
        (line.start(), length)
    }
}

proof fn lemma_evicted_count_ignores_last(a: Seq<Line>, b: Seq<Line>, w_start: int, w_end: int, c: int)
    requires
        a.len() == b.len(),
        a.drop_last() == b.drop_last(),
    ensures
        evicted_count(a, w_start, w_end, c) == evicted_count(b, w_start, w_end, c),
    decreases a.len(),
{
    if a.len() > 1 {
        assert(a[0] == a.drop_last()[0]);
        assert(b[0] == b.drop_last()[0]);
        assert(a.drop_first().drop_last() =~= b.drop_first().drop_last()) by {
            assert(a.drop_first().drop_last() =~= a.drop_last().drop_first());
            assert(b.drop_first().drop_last() =~= b.drop_last().drop_first());
        }
        lemma_evicted_count_ignores_last(a.drop_first(), b.drop_first(), w_start, w_end, c);
    }
}

/// The history as plain values: the lines oldest first, the cell ring, where
/// the oldest kept cell sits in it, how many cells are kept, and how many
/// lines fit.
#[verifier::ext_equal]
pub struct ScrollbackModel {
    pub lines: Seq<Line>,
    pub ring: Seq<Cell>,
    pub oldest: nat,
    pub total: nat,
    pub lines_capacity: nat,
}

impl ScrollbackModel {
    /// Ring position where the next cell goes.
    pub open spec fn free(self) -> nat {
        wrap_index((self.oldest + self.total) as int, self.ring.len() as int) as nat
    }

    /// The cells of a line.
    pub open spec fn line_cells(self, line: Line) -> Seq<Cell> {
        wrapped_run(self.ring, line.start() as int, line.length() as int)
    }

    /// The history after the line being extended was ended and an empty one started.
    pub open spec fn advanced(self) -> ScrollbackModel {
        let kept = if self.lines.len() == self.lines_capacity { self.lines.drop_first() } else { self.lines };
        ScrollbackModel { lines: kept.push(Line { start: self.free() as usize, length: 0 }), ..self }
    }

    /// The history after `data` (at most one ring of cells) was appended to
    /// the line being extended.
    pub open spec fn with_block(self, data: Seq<Cell>) -> ScrollbackModel {
        let s = if self.lines.len() == 0 { self.advanced() } else { self };
        let c = s.ring.len();
        let w_start = s.free() as int;
        let n = data.len();
        let grown = grown_line(s.lines.last(), n, c);
        let k = evicted_count(s.lines, w_start, w_start + n, c as int);
        ScrollbackModel {
            lines: s.lines.drop_last().subrange(k as int, s.lines.len() - 1)
                .push(Line { start: grown.0 as usize, length: grown.1 as usize }),
            ring: wrapped_write(s.ring, w_start, data),
            oldest: if s.total + n > c { wrap_index(s.oldest + (s.total + n - c), c as int) as nat } else { s.oldest },
            total: if s.total + n > c { c } else { s.total + n },
            lines_capacity: s.lines_capacity,
        }
    }

    /// The history after `src` was appended to the line being extended, one
    /// ring of cells at a time.
    pub open spec fn extended(self, src: Seq<Cell>) -> ScrollbackModel
        decreases src.len(),
    {
        if src.len() == 0 || self.ring.len() == 0 {
            self
        } else {
            let n = if src.len() < self.ring.len() { src.len() } else { self.ring.len() };
            self.with_block(src.take(n as int)).extended(src.skip(n as int))
        }
    }
}

/// Extending the line being written with cells that fit in the ring beside it
/// appends them to that line: its cells afterwards are its cells before,
/// followed by the new ones.
pub proof fn lemma_extend_appends(m: ScrollbackModel, data: Seq<Cell>)
    requires
        0 < m.ring.len() <= usize::MAX,
        m.lines.len() > 0,
        m.lines.last().start() < m.ring.len(),
        m.lines.last().length() + data.len() <= m.ring.len(),
        m.free() == wrap_index((m.lines.last().start() + m.lines.last().length()) as int, m.ring.len() as int),
    ensures
        m.extended(data).line_cells(m.extended(data).lines.last()) == m.line_cells(m.lines.last()) + data,
{
    let c = m.ring.len() as int;
    let last = m.lines.last();
    let start = last.start() as int;
    let len = last.length() as int;
    let n = data.len() as int;
    let w = m.with_block(data);
    let free = m.free() as int;
    assert(w.lines.last() == Line { start: last.start() as usize, length: (len + n) as usize });
    let after = w.line_cells(w.lines.last());
    let expected = m.line_cells(last) + data;
    assert forall|j: int| 0 <= j < len + n implies #[trigger] after[j] == expected[j] by {
        let pos = wrap_index(start + j, c);
        if j < len {
            assert(offset_from(pos, free, c) >= n);
        } else {
            assert(offset_from(pos, free, c) == j - len);
        }
    }
    assert(after =~= expected);
    if n > 0 {
        let n2 = if data.len() < m.ring.len() { data.len() } else { m.ring.len() };
        assert(data.take(n2 as int) =~= data);
        assert(data.skip(n2 as int) =~= Seq::<Cell>::empty());
        assert(w.ring.len() == m.ring.len());
        assert(m.extended(data) == m.with_block(data.take(n2 as int)).extended(data.skip(n2 as int)));
        assert(w.extended(Seq::<Cell>::empty()) == w);
        assert(m.extended(data) == w);
    } else {
        assert(data =~= Seq::<Cell>::empty());
        assert(m.line_cells(last) + data =~= m.line_cells(last));
        assert(m.extended(data) == m);
    }
}

#[derive(Debug)]
pub struct ScrollbackBuffer {
    lines: CircularBuffer<Line>,
    cells: CircularBuffer<Cell>,
    lines_oldest_index: usize,
    total_lines: usize,
    cells_oldest_index: usize,
    total_cells: usize,
}

impl ScrollbackBuffer {
    /// The history as plain values.
    pub open spec fn model(&self) -> ScrollbackModel {
        ScrollbackModel {
            lines: self.live_lines(),
            ring: self.cell_ring(),
            oldest: self.cells_oldest(),
            total: self.total_cells(),
            lines_capacity: self.lines_capacity(),
        }
    }

    /// How many lines the history can hold.
    pub closed spec fn lines_capacity(&self) -> nat {
        self.lines@.len()
    }

    /// How many cells the history can hold.
    pub closed spec fn cells_capacity(&self) -> nat {
        self.cells@.len()
    }

    /// The lines of the history, oldest first; the last one is being extended.
    pub closed spec fn live_lines(&self) -> Seq<Line> {
        Seq::new(self.total_lines as nat, |k: int| self.lines@[wrap_index(self.lines_oldest_index + k, self.lines@.len() as int)])
    }

    /// The cell ring.
    pub closed spec fn cell_ring(&self) -> Seq<Cell> {
        self.cells@
    }

    /// Ring position of the oldest cell kept.
    pub closed spec fn cells_oldest(&self) -> nat {
        self.cells_oldest_index as nat
    }

    /// How many cells are kept.
    pub closed spec fn total_cells(&self) -> nat {
        self.total_cells as nat
    }

    /// Ring position where the next cell goes.
    pub open spec fn free_cell(&self) -> nat {
        wrap_index((self.cells_oldest() + self.total_cells()) as int, self.cells_capacity() as int) as nat
    }

    /// The cells of a line.
    pub open spec fn line_cells(&self, line: Line) -> Seq<Cell> {
        wrapped_run(self.cell_ring(), line.start() as int, line.length() as int)
    }

    pub closed spec fn wf(&self) -> bool {
        &&& self.lines@.len() > 0
        &&& self.cells@.len() > 0
        &&& self.lines_oldest_index < self.lines@.len()
        &&& self.total_lines <= self.lines@.len()
        &&& self.cells_oldest_index < self.cells@.len()
        &&& self.total_cells <= self.cells@.len()
        &&& self.lines@.len() <= usize::MAX / 2
        &&& self.cells@.len() <= usize::MAX / 2
        &&& forall|k: int| 0 <= k < self.total_lines ==> {
            &&& (#[trigger] self.live_lines()[k]).start() < self.cells@.len()
            &&& self.live_lines()[k].length() <= self.cells@.len()
        }
        &&& self.total_lines > 0 ==> {
            let last = self.live_lines().last();
            &&& last.length() <= self.total_cells
            &&& wrap_index((last.start() + last.length()) as int, self.cells@.len() as int) == self.free_cell()
        }
    }

    /// Every line of a well-formed history starts in the cell ring and is no
    /// longer than it.
    pub proof fn lemma_lines_in_ring(&self)
        requires
            self.wf(),
        ensures
            self.cells_capacity() == self.model().ring.len(),
            self.model().ring.len() > 0,
            forall|k: int| 0 <= k < self.model().lines.len() ==> {
                &&& (#[trigger] self.model().lines[k]).start() < self.model().ring.len()
                &&& self.model().lines[k].length() <= self.model().ring.len()
            },
            self.model().ring.len() <= usize::MAX,
            self.model().lines.len() > 0 ==> self.model().free() == wrap_index(
                (self.model().lines.last().start() + self.model().lines.last().length()) as int,
                self.model().ring.len() as int),
    {
        assert forall|k: int| 0 <= k < self.model().lines.len() implies {
            &&& (#[trigger] self.model().lines[k]).start() < self.model().ring.len()
            &&& self.model().lines[k].length() <= self.model().ring.len()
        } by {
            assert(self.model().lines[k] == self.live_lines()[k]);
        }
    }

    /// An empty history holding at most `lines_capacity` lines and `cells_capacity` cells.
    pub fn new(lines_capacity: usize, cells_capacity: usize) -> (r: Self)
        requires
            0 < lines_capacity <= usize::MAX / 2,
            0 < cells_capacity <= usize::MAX / 2,
        ensures
            r.wf(),
            r.lines_capacity() == lines_capacity,
            r.cells_capacity() == cells_capacity,
            r.live_lines() == Seq::<Line>::empty(),
            r.total_cells() == 0,
    {
        let r = ScrollbackBuffer {
            lines: CircularBuffer::filled(lines_capacity, Line::default()),
            cells: CircularBuffer::filled(cells_capacity, Cell::default()),
            lines_oldest_index: 0,
            total_lines: 0,
            cells_oldest_index: 0,
            total_cells: 0,
        };
        proof {
            assert(r.live_lines() =~= Seq::<Line>::empty());
        }
        r
    }

    /// The lines of the history, oldest first.
    pub fn get_lines(&self) -> (r: Vec<Line>)
        requires
            self.wf(),
        ensures
            r@ == self.live_lines(),
    {
        let v = self.lines.read_range(self.lines_oldest_index, self.lines_oldest_index + self.total_lines);
        proof {
            assert(v@ =~= self.live_lines());
        }
        v
    }

    /// The cells of `line`.
    pub fn get_row(&self, line: &Line) -> (r: Vec<Cell>)
        requires
            self.wf(),
            line.start() < self.cells_capacity(),
            line.length() <= self.cells_capacity(),
        ensures
            r@ == self.line_cells(*line),
    {
        self.cells.read_range(line.start, line.start + line.length)
    }

    fn get_free_line_index(&self) -> (r: usize)
        requires
            self.wf(),
        ensures
            r == wrap_index(self.lines_oldest_index + self.total_lines, self.lines@.len() as int),
    {
        let i = self.lines_oldest_index + self.total_lines;
        if i >= self.lines.len() { i - self.lines.len() } else { i }
    }

    fn get_free_cell_index(&self) -> (r: usize)
        requires
            self.wf(),
        ensures
            r == self.free_cell(),
    {
        let i = self.cells_oldest_index + self.total_cells;
        if i >= self.cells.len() { i - self.cells.len() } else { i }
    }

    fn get_current_line_index(&self) -> (r: usize)
        requires
            self.wf(),
            self.total_lines >= 1,
        ensures
            r == wrap_index(self.lines_oldest_index + self.total_lines - 1, self.lines@.len() as int),
    {
        let i = self.lines_oldest_index + self.total_lines - 1;
        if i >= self.lines.len() { i - self.lines.len() } else { i }
    }

    /// Ends the line being extended and starts a new, empty one at the next
    /// free cell; where the line ring is full the oldest line gives way.
    pub fn advance_line(&mut self)
        requires
            old(self).wf(),
        ensures
            final(self).wf(),
            final(self).lines_capacity() == old(self).lines_capacity(),
            final(self).cells_capacity() == old(self).cells_capacity(),
            final(self).cell_ring() == old(self).cell_ring(),
            final(self).cells_oldest() == old(self).cells_oldest(),
            final(self).total_cells() == old(self).total_cells(),
            final(self).model() == old(self).model().advanced(),
    {
        let ghost old_lines = self.live_lines();
        let len = self.lines.len();
        if self.total_lines == len {
            self.lines.set(self.lines_oldest_index, Line::default());
            self.total_lines = self.total_lines - 1;
            self.lines_oldest_index = if self.lines_oldest_index + 1 >= len { 0 } else { self.lines_oldest_index + 1 };
            proof {
                assert(self.live_lines() =~= old_lines.drop_first());
            }
        }
        let ghost mid_lines = self.live_lines();
        let line_index = self.get_free_line_index();
        let cell_index = self.get_free_cell_index();
        self.lines.set(line_index, Line { start: cell_index, length: 0 });
        self.total_lines = self.total_lines + 1;
        proof {
            assert(self.live_lines().drop_last() =~= mid_lines);
            assert(self.live_lines() =~= mid_lines.push(Line { start: cell_index, length: 0 }));
            assert forall|k: int| 0 <= k < self.total_lines implies {
                &&& (#[trigger] self.live_lines()[k]).start() < self.cells@.len()
                &&& self.live_lines()[k].length() <= self.cells@.len()
            } by {
                if k < self.total_lines - 1 {
                    assert(self.live_lines()[k] == mid_lines[k]);
                }
            }
        }
    }

    /// Appends `src` to the line being extended (starting a line where there
    /// is none), in blocks of at most one cell ring; each block may push out
    /// the oldest lines whose cells it overwrites.
    pub fn extend_current_line(&mut self, src: &[Cell])
        requires
            old(self).wf(),
        ensures
            final(self).wf(),
            final(self).lines_capacity() == old(self).lines_capacity(),
            final(self).cells_capacity() == old(self).cells_capacity(),
            final(self).model() == old(self).model().extended(src@),
    {
        let chunk_length = self.cells.len();
        let mut offset: usize = 0;
        proof {
            assert(src@.skip(0) =~= src@);
        }
        while offset < src.len()
            invariant
                self.wf(),
                offset <= src@.len(),
                chunk_length == self.cells_capacity(),
                self.lines_capacity() == old(self).lines_capacity(),
                self.cells_capacity() == old(self).cells_capacity(),
                old(self).model().extended(src@) == self.model().extended(src@.skip(offset as int)),
            decreases src@.len() - offset,
        {
            let remaining = src.len() - offset;
            let n = if remaining < chunk_length { remaining } else { chunk_length };
            let chunk = vstd::slice::slice_subrange(src, offset, offset + n);
            proof {
                let rest = src@.skip(offset as int);
                assert(chunk@ =~= rest.take(n as int));
                assert(rest.skip(n as int) =~= src@.skip(offset + n));
            }
            self.extend_current_line_by_fittable_block(chunk);
            offset = offset + n;
        }
        proof {
            assert(src@.skip(offset as int).len() == 0);
        }
    }

    /// Appends a block of at most one cell ring to the line being extended.
    pub fn extend_current_line_by_fittable_block(&mut self, data: &[Cell])
        requires
            old(self).wf(),
            data@.len() <= old(self).cells_capacity(),
        ensures
            final(self).wf(),
            final(self).lines_capacity() == old(self).lines_capacity(),
            final(self).cells_capacity() == old(self).cells_capacity(),
            final(self).model() == old(self).model().with_block(data@),
    {
        let ghost free0 = self.free_cell();
        if self.total_lines == 0 {
            self.advance_line();
            proof {
                assert(self.live_lines() =~= seq![Line { start: free0 as usize, length: 0 }]);
            }
        }
        let ghost lines0 = self.live_lines();
        let start_cell_index = self.get_free_cell_index();
        self.push_and_clamp_into_current_line(data);
        proof {
            assert(self.live_lines().drop_last() =~= lines0.drop_last());
        }
        let ghost lines1 = self.live_lines();
        self.evict_overridden_lines(start_cell_index, data.len());
        proof {
            lemma_evicted_count_ignores_last(lines1, lines0, start_cell_index as int,
                start_cell_index + data@.len(), self.cells@.len() as int);
        }
    }

    fn push_and_clamp_into_current_line(&mut self, data: &[Cell])
        requires
            old(self).wf(),
            old(self).total_lines >= 1,
            data@.len() <= old(self).cells@.len(),
        ensures
            final(self).wf(),
            final(self).lines@.len() == old(self).lines@.len(),
            final(self).cells@.len() == old(self).cells@.len(),
            final(self).lines_oldest_index == old(self).lines_oldest_index,
            final(self).total_lines == old(self).total_lines,
            final(self).cell_ring() == wrapped_write(old(self).cell_ring(), old(self).free_cell() as int, data@),
            final(self).total_cells() == (if old(self).total_cells() + data@.len() > old(self).cells@.len() {
                old(self).cells@.len() as nat
            } else {
                old(self).total_cells() + data@.len()
            }),
            final(self).free_cell() == wrap_index((old(self).free_cell() + data@.len()) as int, old(self).cells@.len() as int),
            final(self).cells_oldest() == (if old(self).total_cells() + data@.len() > old(self).cells@.len() {
                wrap_index(old(self).cells_oldest() + (old(self).total_cells() + data@.len() - old(self).cells@.len()), old(self).cells@.len() as int) as nat
            } else {
                old(self).cells_oldest()
            }),
            final(self).live_lines().drop_last() == old(self).live_lines().drop_last(),
            ({
                let grown = grown_line(old(self).live_lines().last(), data@.len(), old(self).cells@.len() as nat);
                final(self).live_lines().last() == Line { start: grown.0 as usize, length: grown.1 as usize }
            }),
    {
        let ghost lines0 = self.live_lines();
        let c = self.cells.len();
        let start_cell_index = self.get_free_cell_index();
        let block = vstd::slice::slice_to_vec(data);
        self.cells.write_range(start_cell_index, &block);
        // clamp the line being extended to the last `c` cells
        let line_index = self.get_current_line_index();
        let mut line = self.lines.get(line_index);
        line.length = line.length + data.len();
        if line.length > c {
            let total_override = line.length - c;
            line.length = c;
            let s = line.start + total_override;
            line.start = if s >= c { s - c } else { s };
        }
        self.lines.set(line_index, line);
        // drop the oldest cells that were overwritten
        let ghost tc0 = self.total_cells;
        let ghost co0 = self.cells_oldest_index;
        self.total_cells = self.total_cells + data.len();
        if self.total_cells > c {
            let total_override = self.total_cells - c;
            self.total_cells = c;
            let o = self.cells_oldest_index + total_override;
            self.cells_oldest_index = if o >= c { o - c } else { o };
        }
        proof {
            assert(self.live_lines().drop_last() =~= lines0.drop_last());
            assert(self.live_lines().last() == line);
            assert forall|k: int| 0 <= k < self.total_lines implies {
                &&& (#[trigger] self.live_lines()[k]).start() < self.cells@.len()
                &&& self.live_lines()[k].length() <= self.cells@.len()
            } by {
                if k < self.total_lines - 1 {
                    assert(self.live_lines()[k] == lines0[k]);
                }
            }
        }
    }

    fn evict_overridden_lines(&mut self, start_cell_index: usize, total_cells: usize)
        requires
            old(self).wf(),
            old(self).total_lines >= 1,
            start_cell_index < old(self).cells@.len(),
            total_cells <= old(self).cells@.len(),
        ensures
            final(self).wf(),
            final(self).lines@.len() == old(self).lines@.len(),
            final(self).cells@.len() == old(self).cells@.len(),
            final(self).cell_ring() == old(self).cell_ring(),
            final(self).cells_oldest() == old(self).cells_oldest(),
            final(self).total_cells() == old(self).total_cells(),
            ({
                let lines0 = old(self).live_lines();
                let k = evicted_count(lines0, start_cell_index as int, start_cell_index + total_cells,
                    old(self).cells@.len() as int);
                final(self).live_lines() == lines0.drop_last().subrange(k as int, lines0.len() - 1).push(lines0.last())
            }),
    {
        let ghost lines0 = self.live_lines();
        let ghost c = self.cells@.len() as int;
        let end_cell_index = start_cell_index + total_cells;
        let len = self.lines.len();
        let ghost evicted: nat = 0;
        proof {
            assert(lines0.drop_last().subrange(0, lines0.len() - 1).push(lines0.last()) =~= lines0);
        }
        while self.total_lines > 1
            invariant
                self.wf(),
                len == self.lines@.len(),
                self.lines@.len() == old(self).lines@.len(),
                self.cells@.len() == old(self).cells@.len(),
                c == self.cells@.len(),
                end_cell_index == start_cell_index + total_cells,
                self.cell_ring() == old(self).cell_ring(),
                self.cells_oldest() == old(self).cells_oldest(),
                self.total_cells() == old(self).total_cells(),
                evicted + self.total_lines == lines0.len(),
                self.live_lines() == lines0.drop_last().subrange(evicted as int, lines0.len() - 1).push(lines0.last()),
                evicted_count(lines0, start_cell_index as int, end_cell_index as int, c)
                    == evicted + evicted_count(self.live_lines(), start_cell_index as int, end_cell_index as int, c),
            ensures
                evicted_count(lines0, start_cell_index as int, end_cell_index as int, c) == evicted,
                self.wf(),
                self.lines@.len() == old(self).lines@.len(),
                self.cells@.len() == old(self).cells@.len(),
                self.cell_ring() == old(self).cell_ring(),
                self.cells_oldest() == old(self).cells_oldest(),
                self.total_cells() == old(self).total_cells(),
                self.live_lines() == lines0.drop_last().subrange(evicted as int, lines0.len() - 1).push(lines0.last()),
            decreases self.total_lines,
        {
            let ghost cur = self.live_lines();
            let line = self.lines.get(self.lines_oldest_index);
            proof {
                assert(line == cur[0]);
            }
            let mut start_old_index = line.start;
            // shift the start so that it lies in the window's range of the doubled index space
            if start_old_index < start_cell_index {
                start_old_index = start_old_index + self.cells.len();
            }
            if start_old_index >= end_cell_index {
                proof {
                    assert(!in_write_window(cur[0].start() as int, start_cell_index as int, end_cell_index as int, c));
                }
                break;
            }
            proof {
                assert(in_write_window(cur[0].start() as int, start_cell_index as int, end_cell_index as int, c));
            }
            self.lines.set(self.lines_oldest_index, Line::default());
            self.total_lines = self.total_lines - 1;
            self.lines_oldest_index = if self.lines_oldest_index + 1 >= len { 0 } else { self.lines_oldest_index + 1 };
            proof {
                assert(self.live_lines() =~= cur.drop_first());
                evicted = evicted + 1;
                assert(lines0.drop_last().subrange(evicted as int, lines0.len() - 1).push(lines0.last())
                    =~= cur.drop_first());
            }
        }
        proof {
            if self.total_lines <= 1 {
                assert(evicted_count(self.live_lines(), start_cell_index as int, end_cell_index as int, c) == 0);
            }
        }
    }
}

impl Default for ScrollbackBuffer {
    /// A history of one page of lines and 128 pages of cells, counted in
    /// elements, for the running system's page size (4096 where none is reported).
    fn default() -> (r: Self)
        ensures
            r.wf(),
            r.live_lines() == Seq::<Line>::empty(),
            r.total_cells() == 0,
    {
        let g = match get_allocation_granularity() {
            Some(g) => g,
            None => 4096,
        };
        let lines_capacity = if g <= usize::MAX / 2 { g } else { 4096 };
        let cells_capacity = if g <= usize::MAX / 256 { g * 128 } else { 4096 * 128 };
        Self::new(lines_capacity, cells_capacity)
    }
}

} // verus!
