//! The two screens of a terminal (the primary one, with its history, and
//! the alternate one that full-screen programs draw on), which of them is
//! shown, and how the cursor is drawn.
use vstd::prelude::*;
use crate::commands::CursorStyle;
use crate::primitives::{Pen, Vector2};
use crate::scrollback_buffer::ScrollbackBuffer;
use crate::viewport::{Viewport, ViewportModel, blank_model, default_viewport_size};

verus! {

/// How the cursor is drawn.
#[derive(Clone, Copy, Debug, PartialEq, Eq, Structural)]
pub struct CursorStatus {
    pub is_visible: bool,
    pub is_blinking: bool,
    pub style: CursorStyle,
}

pub open spec fn default_cursor_status() -> CursorStatus {
    CursorStatus { is_visible: true, is_blinking: true, style: CursorStyle::Block }
}

impl Default for CursorStatus {
    /// A visible, blinking block.
    fn default() -> (r: Self)
        ensures
            r == default_cursor_status(),
    {
        CursorStatus { is_visible: true, is_blinking: true, style: CursorStyle::Block }
    }
}

/// Both screens as plain values.
#[verifier::ext_equal]
pub struct DisplayModel {
    pub primary: ViewportModel,
    pub alternate: ViewportModel,
    pub is_alternate: bool,
    pub size: Vector2,
    pub cursor_status: CursorStatus,
}

impl DisplayModel {
    /// The screen shown.
    pub open spec fn current(self) -> ViewportModel {
        if self.is_alternate { self.alternate } else { self.primary }
    }

    /// The screen not shown.
    pub open spec fn other(self) -> ViewportModel {
        if self.is_alternate { self.primary } else { self.alternate }
    }

    /// The shown screen replaced by `v`.
    pub open spec fn with_current(self, v: ViewportModel) -> DisplayModel {
        if self.is_alternate { DisplayModel { alternate: v, ..self } } else { DisplayModel { primary: v, ..self } }
    }
}

/// Whether `size` can be the size of a screen.
pub open spec fn valid_size(size: Vector2) -> bool {
    &&& 1 <= size.x < usize::MAX
    &&& 1 <= size.y <= usize::MAX / 2
}

pub struct TerminalDisplay {
    primary_viewport: Viewport,
    alternate_viewport: Viewport,
    is_alternate_viewport: bool,
    size: Vector2,
    cursor_status: CursorStatus,
}

impl TerminalDisplay {
    pub closed spec fn model(&self) -> DisplayModel {
        DisplayModel {
            primary: self.primary_viewport.model(),
            alternate: self.alternate_viewport.model(),
            is_alternate: self.is_alternate_viewport,
            size: self.size,
            cursor_status: self.cursor_status,
        }
    }

    pub closed spec fn wf(&self) -> bool {
        &&& self.primary_viewport.wf()
        &&& self.alternate_viewport.wf()
        &&& valid_size(self.size)
    }

    /// Sets whether a line feed also returns to the first column, on both screens.
    pub fn set_is_newline_carriage_return(&mut self, is_newline_carriage_return: bool)
        requires
            old(self).wf(),
        ensures
            final(self).wf(),
            final(self).model() == (DisplayModel {
                primary: ViewportModel { is_newline_carriage_return, ..old(self).model().primary },
                alternate: ViewportModel { is_newline_carriage_return, ..old(self).model().alternate },
                ..old(self).model()
            }),
    {
        self.primary_viewport.set_is_newline_carriage_return(is_newline_carriage_return);
        self.alternate_viewport.set_is_newline_carriage_return(is_newline_carriage_return);
    }

    /// Sets the pen that a style reset goes back to, on both screens.
    pub fn set_default_pen(&mut self, pen: Pen)
        requires
            old(self).wf(),
        ensures
            final(self).wf(),
            final(self).model() == (DisplayModel {
                primary: ViewportModel { default_pen: pen, ..old(self).model().primary },
                alternate: ViewportModel { default_pen: pen, ..old(self).model().alternate },
                ..old(self).model()
            }),
    {
        self.primary_viewport.set_default_pen(pen);
        self.alternate_viewport.set_default_pen(pen);
    }

    /// Resizes the shown screen to `size`, which the other screen takes on
    /// when it is next shown.
    pub fn set_size(&mut self, size: Vector2)
        requires
            old(self).wf(),
            valid_size(size),
        ensures
            final(self).wf(),
            final(self).model() == (DisplayModel { size, ..old(self).model() })
                .with_current(old(self).model().current().resized(size)),
    {
        self.size = size;
        let viewport = self.get_current_viewport_mut();
        viewport.set_size(size);
    }

    /// Shows the alternate screen, or the primary one, at the current size.
    pub fn set_is_alternate(&mut self, is_alternate: bool)
        requires
            old(self).wf(),
        ensures
            final(self).wf(),
            ({
                let m = DisplayModel { is_alternate, ..old(self).model() };
                final(self).model() == m.with_current(m.current().resized(old(self).model().size))
            }),
    {
        self.is_alternate_viewport = is_alternate;
        let size = self.size;
        let viewport = self.get_current_viewport_mut();
        viewport.set_size(size);
    }

    /// The shown screen of a well-formed display has a size within bounds
    /// and its cursor on it (the column may be one past the last).
    pub proof fn lemma_current_on_screen(&self)
        requires
            self.wf(),
        ensures
            1 <= self.model().current().size.x < usize::MAX,
            1 <= self.model().current().size.y <= usize::MAX / 2,
            self.model().current().cursor.x <= self.model().current().size.x,
            self.model().current().cursor.y < self.model().current().size.y,
            self.model().current().rows.len() == self.model().current().size.y,
            self.model().current().statuses.len() == self.model().current().size.y,
    {
        if self.is_alternate_viewport {
            self.alternate_viewport.lemma_model_shape();
        } else {
            self.primary_viewport.lemma_model_shape();
        }
    }

    /// How the cursor is drawn.
    pub fn get_cursor_status(&self) -> (r: CursorStatus)
        ensures
            r == self.model().cursor_status,
    {
        self.cursor_status
    }

    /// Sets how the cursor is drawn.
    pub fn set_cursor_status(&mut self, status: CursorStatus)
        requires
            old(self).wf(),
        ensures
            final(self).wf(),
            final(self).model() == (DisplayModel { cursor_status: status, ..old(self).model() }),
    {
        self.cursor_status = status;
        proof { assert(self.model() =~= (DisplayModel { cursor_status: status, ..old(self).model() })); }
    }

    /// The screen shown.
    pub fn get_current_viewport(&self) -> (r: &Viewport)
        requires
            self.wf(),
        ensures
            r.wf(),
            r.model() == self.model().current(),
    {
        if self.is_alternate_viewport { &self.alternate_viewport } else { &self.primary_viewport }
    }

    /// The screen shown, to change; the rest of the display stays as it is.
    pub fn get_current_viewport_mut(&mut self) -> (r: &mut Viewport)
        requires
            old(self).wf(),
        ensures
            r.wf(),
            r.model() == old(self).model().current(),
            final(r).wf() ==> final(self).wf(),
            final(self).model() == old(self).model().with_current(final(r).model()),
    {
        if self.is_alternate_viewport { &mut self.alternate_viewport } else { &mut self.primary_viewport }
    }
}

impl Default for TerminalDisplay {
    /// Two blank screens of the default size, only the primary one (which is
    /// shown) keeping a history, at first empty; a display size of one cell, and a visible blinking
    /// block cursor.
    fn default() -> (r: Self)
        ensures
            r.wf(),
            r.model().is_alternate == false,
            r.model().size == (Vector2 { x: 1, y: 1 }),
            r.model().cursor_status == default_cursor_status(),
            r.model().primary == blank_model(default_viewport_size(), r.model().primary.history),
            r.model().alternate == blank_model(default_viewport_size(), None),
            r.model().primary.history matches Some(h) && h.lines.len() == 0 && h.total == 0,
    {
        let mut primary_viewport = Viewport::default();
        primary_viewport.set_scrollback_buffer(Some(ScrollbackBuffer::default()));
        TerminalDisplay {
            primary_viewport,
            alternate_viewport: Viewport::default(),
            is_alternate_viewport: false,
            size: Vector2 { x: 1, y: 1 },
            cursor_status: CursorStatus::default(),
        }
    }
}

} // verus!
