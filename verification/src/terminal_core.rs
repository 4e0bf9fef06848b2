//! What a terminal does with the text and escape sequences a program
//! writes: it draws on the shown screen, changes the pen, moves the cursor,
//! switches screens and input modes, and tells the window when to redraw.
use vstd::prelude::*;
use crate::colour_table::{xterm_colour, xterm_colour_spec};
use crate::commands::{
    Command, EraseMode, GraphicStyle, InputMode, MouseCoordinateFormat, MouseTrackingMode, WindowAction,
};
use crate::primitives::{
    Cell, LineStatus, Pen, Rgb8, StyleFlags, Vector2, STYLE_BLINKING, STYLE_BOLD, STYLE_DIM, STYLE_HIDDEN,
    STYLE_INVERSE, STYLE_ITALIC, STYLE_NONE, STYLE_STRIKETHROUGH, STYLE_UNDERLINE,
};
use crate::terminal_display::{CursorStatus, DisplayModel, TerminalDisplay, default_cursor_status};
use crate::viewport::{Viewport, ViewportModel, blank_model, default_viewport_size, lemma_resize_to_same_size};

verus! {

/// How keys and the mouse are reported to the program.
#[derive(Clone, Copy, Debug, PartialEq, Eq, Structural)]
pub struct EncoderSettings {
    pub keypad_input_mode: InputMode,
    pub cursor_key_input_mode: InputMode,
    pub is_bracketed_paste_mode: bool,
    pub mouse_tracking_mode: MouseTrackingMode,
    pub mouse_coordinate_format: MouseCoordinateFormat,
    pub is_report_focus: bool,
}

pub open spec fn default_encoder_settings() -> EncoderSettings {
    EncoderSettings {
        keypad_input_mode: InputMode::Numeric,
        cursor_key_input_mode: InputMode::Numeric,
        is_bracketed_paste_mode: true,
        mouse_tracking_mode: MouseTrackingMode::Disabled,
        mouse_coordinate_format: MouseCoordinateFormat::Normal,
        is_report_focus: false,
    }
}

impl Default for EncoderSettings {
    /// Plain key codes, bracketed paste, no mouse reports.
    fn default() -> (r: Self)
        ensures
            r == default_encoder_settings(),
    {
        EncoderSettings {
            keypad_input_mode: InputMode::Numeric,
            cursor_key_input_mode: InputMode::Numeric,
            is_bracketed_paste_mode: true,
            mouse_tracking_mode: MouseTrackingMode::Disabled,
            mouse_coordinate_format: MouseCoordinateFormat::Normal,
            is_report_focus: false,
        }
    }
}

/// The state of a terminal as plain values.
#[verifier::ext_equal]
pub struct CoreModel {
    pub display: DisplayModel,
    pub encoder: EncoderSettings,
}

/// The pen of a dark terminal: light gray on black, no style.
pub open spec fn dark_pen() -> Pen {
    Pen { background_colour: xterm_colour_spec(0), foreground_colour: xterm_colour_spec(15), style_flags: StyleFlags { bits: STYLE_NONE } }
}

/// `pen` with the style bits `flags` set.
pub open spec fn with_flags(pen: Pen, flags: u8) -> Pen {
    Pen { style_flags: StyleFlags { bits: pen.style_flags.bits | flags }, ..pen }
}

/// `pen` with the style bits `flags` cleared.
pub open spec fn without_flags(pen: Pen, flags: u8) -> Pen {
    Pen { style_flags: StyleFlags { bits: pen.style_flags.bits & !flags }, ..pen }
}

/// `pen` with foreground colour `index` of the palette.
pub open spec fn with_foreground(pen: Pen, index: nat) -> Pen {
    Pen { foreground_colour: xterm_colour_spec(index), ..pen }
}

/// `pen` with background colour `index` of the palette.
pub open spec fn with_background(pen: Pen, index: nat) -> Pen {
    Pen { background_colour: xterm_colour_spec(index), ..pen }
}

/// The pen after a graphic style request; `default_pen` is what a reset and
/// the default colours go back to. Extended colours are left as they are.
pub open spec fn styled(pen: Pen, default_pen: Pen, style: GraphicStyle) -> Pen {
    match style {
        GraphicStyle::ResetAll => default_pen,
        GraphicStyle::EnableBold => with_flags(pen, STYLE_BOLD),
        GraphicStyle::EnableDim => with_flags(pen, STYLE_DIM),
        GraphicStyle::EnableItalic => with_flags(pen, STYLE_ITALIC),
        GraphicStyle::EnableUnderline => with_flags(pen, STYLE_UNDERLINE),
        GraphicStyle::EnableBlinking => with_flags(pen, STYLE_BLINKING),
        GraphicStyle::EnableInverse => with_flags(pen, STYLE_INVERSE),
        GraphicStyle::EnableHidden => with_flags(pen, STYLE_HIDDEN),
        GraphicStyle::EnableStrikethrough => with_flags(pen, STYLE_STRIKETHROUGH),
        GraphicStyle::DisableWeight => without_flags(pen, STYLE_BOLD | STYLE_DIM),
        GraphicStyle::DisableItalic => without_flags(pen, STYLE_ITALIC),
        GraphicStyle::DisableUnderline => without_flags(pen, STYLE_UNDERLINE),
        GraphicStyle::DisableBlinking => without_flags(pen, STYLE_BLINKING),
        GraphicStyle::DisableInverse => without_flags(pen, STYLE_INVERSE),
        GraphicStyle::DisableHidden => without_flags(pen, STYLE_HIDDEN),
        GraphicStyle::DisableStrikethrough => without_flags(pen, STYLE_STRIKETHROUGH),
        GraphicStyle::ForegroundBlack => with_foreground(pen, 0),
        GraphicStyle::ForegroundRed => with_foreground(pen, 1),
        GraphicStyle::ForegroundGreen => with_foreground(pen, 2),
        GraphicStyle::ForegroundYellow => with_foreground(pen, 3),
        GraphicStyle::ForegroundBlue => with_foreground(pen, 4),
        GraphicStyle::ForegroundMagenta => with_foreground(pen, 5),
        GraphicStyle::ForegroundCyan => with_foreground(pen, 6),
        GraphicStyle::ForegroundWhite => with_foreground(pen, 7),
        GraphicStyle::ForegroundExtended => pen,
        GraphicStyle::ForegroundDefault => Pen { foreground_colour: default_pen.foreground_colour, ..pen },
        GraphicStyle::BackgroundBlack => with_background(pen, 0),
        GraphicStyle::BackgroundRed => with_background(pen, 1),
        GraphicStyle::BackgroundGreen => with_background(pen, 2),
        GraphicStyle::BackgroundYellow => with_background(pen, 3),
        GraphicStyle::BackgroundBlue => with_background(pen, 4),
        GraphicStyle::BackgroundMagenta => with_background(pen, 5),
        GraphicStyle::BackgroundCyan => with_background(pen, 6),
        GraphicStyle::BackgroundWhite => with_background(pen, 7),
        GraphicStyle::BackgroundExtended => pen,
        GraphicStyle::BackgroundDefault => Pen { background_colour: default_pen.background_colour, ..pen },
        GraphicStyle::BrightForegroundBlack => with_foreground(pen, 8),
        GraphicStyle::BrightForegroundRed => with_foreground(pen, 9),
        GraphicStyle::BrightForegroundGreen => with_foreground(pen, 10),
        GraphicStyle::BrightForegroundYellow => with_foreground(pen, 11),
        GraphicStyle::BrightForegroundBlue => with_foreground(pen, 12),
        GraphicStyle::BrightForegroundMagenta => with_foreground(pen, 13),
        GraphicStyle::BrightForegroundCyan => with_foreground(pen, 14),
        GraphicStyle::BrightForegroundWhite => with_foreground(pen, 15),
        GraphicStyle::BrightBackgroundBlack => with_background(pen, 8),
        GraphicStyle::BrightBackgroundRed => with_background(pen, 9),
        GraphicStyle::BrightBackgroundGreen => with_background(pen, 10),
        GraphicStyle::BrightBackgroundYellow => with_background(pen, 11),
        GraphicStyle::BrightBackgroundBlue => with_background(pen, 12),
        GraphicStyle::BrightBackgroundMagenta => with_background(pen, 13),
        GraphicStyle::BrightBackgroundCyan => with_background(pen, 14),
        GraphicStyle::BrightBackgroundWhite => with_background(pen, 15),
    }
}

/// The status of a row written to the last column and ending in a line break.
pub open spec fn full_status(v: ViewportModel) -> LineStatus {
    LineStatus { length: v.size.x, is_linebreak: true }
}

/// The screen `v` after an erase-in-display request.
pub open spec fn display_erased(v: ViewportModel, mode: EraseMode) -> ViewportModel {
    let x = v.cursor.x as int;
    let y = v.cursor.y as int;
    match mode {
        EraseMode::FromCursorToEnd => {
            let b = v.rows_blanked(y + 1, v.size.y as int, v.pen);
            b.erased(y, x, v.statuses[y].length as int, v.pen)
        },
        EraseMode::FromCursorToStart => v.rows_blanked(0, y, v.pen).erased(y, 0, x + 1, v.pen),
        _ => v.rows_blanked(0, v.size.y as int, v.pen),
    }
}

/// The screen `v` after an erase-in-line request.
pub open spec fn line_erased(v: ViewportModel, mode: EraseMode) -> ViewportModel {
    let x = v.cursor.x as int;
    let y = v.cursor.y as int;
    match mode {
        EraseMode::FromCursorToEnd => v.erased(y, x, v.size.x as int, v.pen).status_set(y, full_status(v)),
        EraseMode::FromCursorToStart => v.erased(y, 0, x + 1, v.pen),
        _ => v.erased(y, 0, v.size.x as int, v.pen).status_set(y, full_status(v)),
    }
}

/// Where a cursor request puts the cursor of `v`, before it is held to the
/// screen; positions in requests count from one.
pub open spec fn cursor_target(v: ViewportModel, c: Command) -> Vector2 {
    let x = v.cursor.x;
    let y = v.cursor.y;
    match c {
        Command::MoveCursorPositionViewport(pos) =>
            Vector2 { x: pos.x.saturating_sub(1) as usize, y: pos.y.saturating_sub(1) as usize },
        Command::MoveCursorUp(t) => Vector2 { x, y: y.saturating_sub(t as usize) },
        Command::MoveCursorDown(t) => Vector2 { x, y: y.saturating_add(t as usize) },
        Command::MoveCursorRight(t) => Vector2 { x: x.saturating_add(t as usize), y },
        Command::MoveCursorLeft(t) => Vector2 { x: x.saturating_sub(t as usize), y },
        Command::MoveCursorReverseIndex => Vector2 { x, y: y.saturating_sub(1) },
        Command::MoveCursorNextLine(t) => Vector2 { x, y: t.saturating_sub(1) as usize },
        Command::MoveCursorPreviousLine(t) => Vector2 { x, y: t.saturating_sub(1) as usize },
        Command::MoveCursorHorizontalAbsolute(t) => Vector2 { x: t.saturating_sub(1) as usize, y },
        Command::MoveCursorVerticalAbsolute(t) => Vector2 { x, y: t.saturating_sub(1) as usize },
        Command::RestoreCursorFromMemory => v.saved_cursor,
        _ => v.cursor,
    }
}

/// Whether `c` acts on the shown screen (its cells, cursor or pen), rather
/// than on the cursor's look, the input settings, the choice of screen or the window.
pub open spec fn is_screen_command(c: Command) -> bool {
    match c {
        Command::SetCursorBlinking(_) | Command::SetCursorVisible(_) | Command::SetCursorStyle(_)
        | Command::SetKeypadMode(_) | Command::SetCursorKeyInputMode(_) | Command::SetBracketedPasteMode(_)
        | Command::SetMouseTrackingMode(_) | Command::SetMouseCoordinateFormat(_) | Command::SetReportFocus(_)
        | Command::SetAlternateBuffer(_) | Command::WindowAction(_) => false,
        _ => true,
    }
}

/// Whether `c` moves the cursor.
pub open spec fn is_cursor_move(c: Command) -> bool {
    match c {
        Command::MoveCursorPositionViewport(_) | Command::MoveCursorUp(_) | Command::MoveCursorDown(_)
        | Command::MoveCursorRight(_) | Command::MoveCursorLeft(_) | Command::MoveCursorReverseIndex
        | Command::MoveCursorNextLine(_) | Command::MoveCursorPreviousLine(_)
        | Command::MoveCursorHorizontalAbsolute(_) | Command::MoveCursorVerticalAbsolute(_)
        | Command::RestoreCursorFromMemory => true,
        _ => false,
    }
}

/// The shown screen `v` after `c`. An RGB background colour is stored as
/// given, with no dimming of its channels. Deleting lines leaves the rows it brings in at the bottom empty and ending
/// in a line break.
pub open spec fn screen_after(v: ViewportModel, c: Command) -> ViewportModel {
    let x = v.cursor.x as int;
    let y = v.cursor.y as int;
    let width = v.size.x as int;
    if is_cursor_move(c) {
        v.cursor_set(cursor_target(v, c))
    } else {
        match c {
            Command::SetGraphicStyle(style) => ViewportModel { pen: styled(v.pen, v.default_pen, style), ..v },
            Command::SetBackgroundColourRgb(rgb) => ViewportModel { pen: Pen { background_colour: rgb, ..v.pen }, ..v },
            Command::SetForegroundColourRgb(rgb) => ViewportModel { pen: Pen { foreground_colour: rgb, ..v.pen }, ..v },
            Command::SetBackgroundColourTable(i) => ViewportModel { pen: with_background(v.pen, i as nat), ..v },
            Command::SetForegroundColourTable(i) => ViewportModel { pen: with_foreground(v.pen, i as nat), ..v },
            Command::EraseInDisplay(mode) => display_erased(v, mode),
            Command::EraseInLine(mode) => line_erased(v, mode),
            Command::ReplaceWithSpaces(t) => {
                let n = if t as int <= width - x { t as int } else { width - x };
                v.erased(y, x, x + n, v.pen)
            },
            Command::InsertSpaces(t) => v.spaces_inserted(y, x, t as nat, v.pen),
            Command::DeleteCharacters(t) => v.chars_deleted(y, x, t as nat),
            Command::InsertLines(t) => v.lines_inserted(t as nat),
            Command::DeleteLines(t) => {
                let k = if t as int <= v.size.y - y { t as int } else { v.size.y - y };
                v.lines_deleted(t as nat).breaks_set(v.size.y - k, v.size.y as int)
            },
            Command::SaveCursorToMemory => ViewportModel { saved_cursor: v.cursor, ..v },
            _ => v,
        }
    }
}

/// Whether the terminal takes `c` on the screen `v`: the erase and delete
/// requests that cover the cell under the cursor need the cursor on a
/// column of the screen, and erasing to the end of the screen needs the
/// cursor within the written part of its row.
pub open spec fn accepts(v: ViewportModel, c: Command) -> bool {
    match c {
        Command::EraseInDisplay(EraseMode::FromCursorToEnd) => v.cursor.x <= v.statuses[v.cursor.y as int].length,
        Command::EraseInDisplay(EraseMode::FromCursorToStart) => v.cursor.x < v.size.x,
        Command::EraseInLine(EraseMode::FromCursorToStart) => v.cursor.x < v.size.x,
        Command::DeleteCharacters(_) => v.cursor.x < v.size.x,
        _ => true,
    }
}

/// What the window is asked to do after `c`.
pub open spec fn action_after(c: Command) -> Option<WindowAction> {
    match c {
        Command::WindowAction(action) => Some(action),
        Command::EraseInDisplay(_) | Command::EraseInLine(_) | Command::ReplaceWithSpaces(_)
        | Command::InsertSpaces(_) | Command::DeleteCharacters(_) | Command::InsertLines(_)
        | Command::DeleteLines(_) | Command::SetCursorBlinking(_) | Command::SetCursorVisible(_)
        | Command::SetCursorStyle(_) => Some(WindowAction::Refresh),
        _ => if is_cursor_move(c) { Some(WindowAction::Refresh) } else { None },
    }
}

impl CoreModel {
    /// The shown screen replaced by `v`.
    pub open spec fn with_screen(self, v: ViewportModel) -> CoreModel {
        CoreModel { display: self.display.with_current(v), ..self }
    }

    /// The terminal after `c`.
    pub open spec fn after_command(self, c: Command) -> CoreModel {
        if is_screen_command(c) { self.with_screen(screen_after(self.display.current(), c)) } else { self.after_setting(c) }
    }

    /// The terminal after a request that changes a setting rather than the shown screen.
    pub open spec fn after_setting(self, c: Command) -> CoreModel {
        let d = self.display;
        let e = self.encoder;
        match c {
            Command::SetCursorBlinking(b) =>
                CoreModel { display: DisplayModel { cursor_status: crate::terminal_display::CursorStatus { is_blinking: b, ..d.cursor_status }, ..d }, ..self },
            Command::SetCursorVisible(b) =>
                CoreModel { display: DisplayModel { cursor_status: crate::terminal_display::CursorStatus { is_visible: b, ..d.cursor_status }, ..d }, ..self },
            Command::SetCursorStyle(s) =>
                CoreModel { display: DisplayModel { cursor_status: crate::terminal_display::CursorStatus { style: s, ..d.cursor_status }, ..d }, ..self },
            Command::SetKeypadMode(m) => CoreModel { encoder: EncoderSettings { keypad_input_mode: m, ..e }, ..self },
            Command::SetCursorKeyInputMode(m) => CoreModel { encoder: EncoderSettings { cursor_key_input_mode: m, ..e }, ..self },
            Command::SetBracketedPasteMode(b) => CoreModel { encoder: EncoderSettings { is_bracketed_paste_mode: b, ..e }, ..self },
            Command::SetMouseTrackingMode(m) => CoreModel {
                encoder: EncoderSettings {
                    mouse_tracking_mode: if m == MouseTrackingMode::Highlight { MouseTrackingMode::Normal } else { m },
                    ..e
                },
                ..self
            },
            Command::SetMouseCoordinateFormat(f) => CoreModel { encoder: EncoderSettings { mouse_coordinate_format: f, ..e }, ..self },
            Command::SetReportFocus(b) => CoreModel { encoder: EncoderSettings { is_report_focus: b, ..e }, ..self },
            Command::SetAlternateBuffer(b) => {
                let m = DisplayModel { is_alternate: b, ..d };
                CoreModel { display: m.with_current(m.current().resized(d.size)), ..self }
            },
            _ => self,
        }
    }

    /// The terminal after the plain text `bytes`.
    pub open spec fn after_ascii(self, bytes: Seq<u8>) -> CoreModel
        decreases bytes.len(),
    {
        if bytes.len() == 0 {
            self
        } else {
            self.with_screen(self.display.current().written_ascii(bytes[0])).after_ascii(bytes.drop_first())
        }
    }
}

/// The pen after a graphic style request.
fn styled_pen(pen: Pen, default_pen: Pen, style: GraphicStyle) -> (r: Pen)
    ensures
        r == styled(pen, default_pen, style),
{
    let bits = pen.style_flags.bits;
    match style {
        GraphicStyle::ResetAll => default_pen,
        GraphicStyle::EnableBold => Pen { style_flags: StyleFlags { bits: bits | STYLE_BOLD }, ..pen },
        GraphicStyle::EnableDim => Pen { style_flags: StyleFlags { bits: bits | STYLE_DIM }, ..pen },
        GraphicStyle::EnableItalic => Pen { style_flags: StyleFlags { bits: bits | STYLE_ITALIC }, ..pen },
        GraphicStyle::EnableUnderline => Pen { style_flags: StyleFlags { bits: bits | STYLE_UNDERLINE }, ..pen },
        GraphicStyle::EnableBlinking => Pen { style_flags: StyleFlags { bits: bits | STYLE_BLINKING }, ..pen },
        GraphicStyle::EnableInverse => Pen { style_flags: StyleFlags { bits: bits | STYLE_INVERSE }, ..pen },
        GraphicStyle::EnableHidden => Pen { style_flags: StyleFlags { bits: bits | STYLE_HIDDEN }, ..pen },
        GraphicStyle::EnableStrikethrough => Pen { style_flags: StyleFlags { bits: bits | STYLE_STRIKETHROUGH }, ..pen },
        GraphicStyle::DisableWeight => Pen { style_flags: StyleFlags { bits: bits & !(STYLE_BOLD | STYLE_DIM) }, ..pen },
        GraphicStyle::DisableItalic => Pen { style_flags: StyleFlags { bits: bits & !STYLE_ITALIC }, ..pen },
        GraphicStyle::DisableUnderline => Pen { style_flags: StyleFlags { bits: bits & !STYLE_UNDERLINE }, ..pen },
        GraphicStyle::DisableBlinking => Pen { style_flags: StyleFlags { bits: bits & !STYLE_BLINKING }, ..pen },
        GraphicStyle::DisableInverse => Pen { style_flags: StyleFlags { bits: bits & !STYLE_INVERSE }, ..pen },
        GraphicStyle::DisableHidden => Pen { style_flags: StyleFlags { bits: bits & !STYLE_HIDDEN }, ..pen },
        GraphicStyle::DisableStrikethrough => Pen { style_flags: StyleFlags { bits: bits & !STYLE_STRIKETHROUGH }, ..pen },
        GraphicStyle::ForegroundBlack => Pen { foreground_colour: xterm_colour(0), ..pen },
        GraphicStyle::ForegroundRed => Pen { foreground_colour: xterm_colour(1), ..pen },
        GraphicStyle::ForegroundGreen => Pen { foreground_colour: xterm_colour(2), ..pen },
        GraphicStyle::ForegroundYellow => Pen { foreground_colour: xterm_colour(3), ..pen },
        GraphicStyle::ForegroundBlue => Pen { foreground_colour: xterm_colour(4), ..pen },
        GraphicStyle::ForegroundMagenta => Pen { foreground_colour: xterm_colour(5), ..pen },
        GraphicStyle::ForegroundCyan => Pen { foreground_colour: xterm_colour(6), ..pen },
        GraphicStyle::ForegroundWhite => Pen { foreground_colour: xterm_colour(7), ..pen },
        GraphicStyle::ForegroundExtended => pen,
        GraphicStyle::ForegroundDefault => Pen { foreground_colour: default_pen.foreground_colour, ..pen },
        GraphicStyle::BackgroundBlack => Pen { background_colour: xterm_colour(0), ..pen },
        GraphicStyle::BackgroundRed => Pen { background_colour: xterm_colour(1), ..pen },
        GraphicStyle::BackgroundGreen => Pen { background_colour: xterm_colour(2), ..pen },
        GraphicStyle::BackgroundYellow => Pen { background_colour: xterm_colour(3), ..pen },
        GraphicStyle::BackgroundBlue => Pen { background_colour: xterm_colour(4), ..pen },
        GraphicStyle::BackgroundMagenta => Pen { background_colour: xterm_colour(5), ..pen },
        GraphicStyle::BackgroundCyan => Pen { background_colour: xterm_colour(6), ..pen },
        GraphicStyle::BackgroundWhite => Pen { background_colour: xterm_colour(7), ..pen },
        GraphicStyle::BackgroundExtended => pen,
        GraphicStyle::BackgroundDefault => Pen { background_colour: default_pen.background_colour, ..pen },
        GraphicStyle::BrightForegroundBlack => Pen { foreground_colour: xterm_colour(8), ..pen },
        GraphicStyle::BrightForegroundRed => Pen { foreground_colour: xterm_colour(9), ..pen },
        GraphicStyle::BrightForegroundGreen => Pen { foreground_colour: xterm_colour(10), ..pen },
        GraphicStyle::BrightForegroundYellow => Pen { foreground_colour: xterm_colour(11), ..pen },
        GraphicStyle::BrightForegroundBlue => Pen { foreground_colour: xterm_colour(12), ..pen },
        GraphicStyle::BrightForegroundMagenta => Pen { foreground_colour: xterm_colour(13), ..pen },
        GraphicStyle::BrightForegroundCyan => Pen { foreground_colour: xterm_colour(14), ..pen },
        GraphicStyle::BrightForegroundWhite => Pen { foreground_colour: xterm_colour(15), ..pen },
        GraphicStyle::BrightBackgroundBlack => Pen { background_colour: xterm_colour(8), ..pen },
        GraphicStyle::BrightBackgroundRed => Pen { background_colour: xterm_colour(9), ..pen },
        GraphicStyle::BrightBackgroundGreen => Pen { background_colour: xterm_colour(10), ..pen },
        GraphicStyle::BrightBackgroundYellow => Pen { background_colour: xterm_colour(11), ..pen },
        GraphicStyle::BrightBackgroundBlue => Pen { background_colour: xterm_colour(12), ..pen },
        GraphicStyle::BrightBackgroundMagenta => Pen { background_colour: xterm_colour(13), ..pen },
        GraphicStyle::BrightBackgroundCyan => Pen { background_colour: xterm_colour(14), ..pen },
        GraphicStyle::BrightBackgroundWhite => Pen { background_colour: xterm_colour(15), ..pen },
    }
}

/// Erases part of the screen with the pen, as `mode` says.
fn erase_in_display(viewport: &mut Viewport, mode: EraseMode)
    requires
        old(viewport).wf(),
        accepts(old(viewport).model(), Command::EraseInDisplay(mode)),
    ensures
        final(viewport).wf(),
        final(viewport).model() == display_erased(old(viewport).model(), mode),
{
    proof { viewport.lemma_model_shape(); }
    let pen = viewport.get_pen();
    let size = viewport.get_size();
    let cursor = viewport.get_cursor();
    match mode {
        EraseMode::FromCursorToEnd => {
            viewport.blank_rows(cursor.y + 1, size.y, pen);
            proof { viewport.lemma_model_shape(); }
            let length = viewport.get_row(cursor.y).1.length;
            viewport.erase_cells(cursor.y, cursor.x, length, pen);
        },
        EraseMode::FromCursorToStart => {
            viewport.blank_rows(0, cursor.y, pen);
            viewport.erase_cells(cursor.y, 0, cursor.x + 1, pen);
        },
        _ => {
            viewport.blank_rows(0, size.y, pen);
        },
    }
}

/// Erases part of the cursor row with the pen, as `mode` says.
fn erase_in_line(viewport: &mut Viewport, mode: EraseMode)
    requires
        old(viewport).wf(),
        accepts(old(viewport).model(), Command::EraseInLine(mode)),
    ensures
        final(viewport).wf(),
        final(viewport).model() == line_erased(old(viewport).model(), mode),
{
    proof { viewport.lemma_model_shape(); }
    let pen = viewport.get_pen();
    let size = viewport.get_size();
    let cursor = viewport.get_cursor();
    match mode {
        EraseMode::FromCursorToEnd => {
            viewport.erase_cells(cursor.y, cursor.x, size.x, pen);
            viewport.set_row_status(cursor.y, LineStatus { length: size.x, is_linebreak: true });
        },
        EraseMode::FromCursorToStart => {
            viewport.erase_cells(cursor.y, 0, cursor.x + 1, pen);
        },
        _ => {
            viewport.erase_cells(cursor.y, 0, size.x, pen);
            viewport.set_row_status(cursor.y, LineStatus { length: size.x, is_linebreak: true });
        },
    }
}

/// Where a cursor request puts the cursor, before it is held to the screen.
fn cursor_target_of(viewport: &Viewport, c: &Command) -> (r: Vector2)
    ensures
        r == cursor_target(viewport.model(), *c),
{
    let cursor = viewport.get_cursor();
    match c {
        Command::MoveCursorPositionViewport(pos) =>
            Vector2 { x: pos.x.saturating_sub(1) as usize, y: pos.y.saturating_sub(1) as usize },
        Command::MoveCursorUp(t) => Vector2 { x: cursor.x, y: cursor.y.saturating_sub(*t as usize) },
        Command::MoveCursorDown(t) => Vector2 { x: cursor.x, y: cursor.y.saturating_add(*t as usize) },
        Command::MoveCursorRight(t) => Vector2 { x: cursor.x.saturating_add(*t as usize), y: cursor.y },
        Command::MoveCursorLeft(t) => Vector2 { x: cursor.x.saturating_sub(*t as usize), y: cursor.y },
        Command::MoveCursorReverseIndex => Vector2 { x: cursor.x, y: cursor.y.saturating_sub(1) },
        Command::MoveCursorNextLine(t) => Vector2 { x: cursor.x, y: t.saturating_sub(1) as usize },
        Command::MoveCursorPreviousLine(t) => Vector2 { x: cursor.x, y: t.saturating_sub(1) as usize },
        Command::MoveCursorHorizontalAbsolute(t) => Vector2 { x: t.saturating_sub(1) as usize, y: cursor.y },
        Command::MoveCursorVerticalAbsolute(t) => Vector2 { x: cursor.x, y: t.saturating_sub(1) as usize },
        Command::RestoreCursorFromMemory => viewport.get_saved_cursor(),
        _ => cursor,
    }
}

/// Applies a request that only concerns the shown screen; tells whether
/// the window has to be redrawn.
fn apply_to_screen(viewport: &mut Viewport, c: &Command) -> (r: bool)
    requires
        old(viewport).wf(),
        accepts(old(viewport).model(), *c),
    ensures
        final(viewport).wf(),
        final(viewport).model() == screen_after(old(viewport).model(), *c),
        r == (action_after(*c) == Some(WindowAction::Refresh)),
{
    proof { viewport.lemma_model_shape(); }
    if is_cursor_move_exec(c) {
        let target = cursor_target_of(viewport, c);
        viewport.set_cursor(target);
        return true;
    }
    let cursor = viewport.get_cursor();
    let size = viewport.get_size();
    let pen = viewport.get_pen();
    match c {
        Command::SetGraphicStyle(style) => {
            let default_pen = viewport.get_default_pen();
            viewport.set_pen(styled_pen(pen, default_pen, *style));
            false
        },
        Command::SetBackgroundColourRgb(rgb) => {
            viewport.set_pen(Pen { background_colour: *rgb, ..pen });
            false
        },
        Command::SetForegroundColourRgb(rgb) => {
            viewport.set_pen(Pen { foreground_colour: *rgb, ..pen });
            false
        },
        Command::SetBackgroundColourTable(i) => {
            viewport.set_pen(Pen { background_colour: xterm_colour(*i), ..pen });
            false
        },
        Command::SetForegroundColourTable(i) => {
            viewport.set_pen(Pen { foreground_colour: xterm_colour(*i), ..pen });
            false
        },
        Command::EraseInDisplay(mode) => {
            erase_in_display(viewport, *mode);
            true
        },
        Command::EraseInLine(mode) => {
            erase_in_line(viewport, *mode);
            true
        },
        Command::ReplaceWithSpaces(t) => {
            let room = size.x - cursor.x;
            let n = if (*t as usize) <= room { *t as usize } else { room };
            viewport.erase_cells(cursor.y, cursor.x, cursor.x + n, pen);
            true
        },
        Command::InsertSpaces(t) => {
            viewport.insert_spaces(cursor.y, cursor.x, *t as usize, pen);
            true
        },
        Command::DeleteCharacters(t) => {
            viewport.delete_characters(cursor.y, cursor.x, *t as usize);
            true
        },
        Command::InsertLines(t) => {
            viewport.insert_lines(*t as usize);
            true
        },
        Command::DeleteLines(t) => {
            viewport.delete_lines(*t as usize);
            let room = size.y - cursor.y;
            let k = if (*t as usize) <= room { *t as usize } else { room };
            mark_line_breaks(viewport, size.y - k);
            true
        },
        Command::SaveCursorToMemory => {
            viewport.save_cursor();
            false
        },
        Command::SetCursorBlinking(_) | Command::SetCursorVisible(_) | Command::SetCursorStyle(_) => true,
        Command::WindowAction(WindowAction::Refresh) => true,
        _ => false,
    }
}

/// Marks the rows from `start` to the bottom of the screen empty and ending
/// in a line break, as the rows that deleting lines brings in at the bottom are.
fn mark_line_breaks(viewport: &mut Viewport, start: usize)
    requires
        old(viewport).wf(),
        start <= old(viewport).model().size.y,
    ensures
        final(viewport).wf(),
        final(viewport).model() == old(viewport).model().breaks_set(start as int, old(viewport).model().size.y as int),
{
    proof { viewport.lemma_model_shape(); }
    let ghost m0 = viewport.model();
    let size = viewport.get_size();
    let mut r: usize = start;
    proof { assert(m0 =~= m0.breaks_set(start as int, start as int)); }
    while r < size.y
        invariant
            start <= r <= size.y,
            size == m0.size,
            viewport.wf(),
            m0.statuses.len() == m0.size.y,
            viewport.model() == m0.breaks_set(start as int, r as int),
        decreases size.y - r,
    {
        viewport.set_row_status(r, LineStatus { length: 0, is_linebreak: true });
        proof {
            assert(viewport.model() =~= m0.breaks_set(start as int, r + 1));
        }
        r = r + 1;
    }
}

/// Whether `c` moves the cursor.
fn is_cursor_move_exec(c: &Command) -> (r: bool)
    ensures
        r == is_cursor_move(*c),
{
    match c {
        Command::MoveCursorPositionViewport(_) | Command::MoveCursorUp(_) | Command::MoveCursorDown(_)
        | Command::MoveCursorRight(_) | Command::MoveCursorLeft(_) | Command::MoveCursorReverseIndex
        | Command::MoveCursorNextLine(_) | Command::MoveCursorPreviousLine(_)
        | Command::MoveCursorHorizontalAbsolute(_) | Command::MoveCursorVerticalAbsolute(_)
        | Command::RestoreCursorFromMemory => true,
        _ => false,
    }
}

/// A terminal: its display and how input is reported back to the program.
pub struct TerminalCore {
    display: TerminalDisplay,
    encoder: EncoderSettings,
}

impl TerminalCore {
    pub closed spec fn model(&self) -> CoreModel {
        CoreModel { display: self.display.model(), encoder: self.encoder }
    }

    pub closed spec fn wf(&self) -> bool {
        self.display.wf()
    }

    /// A dark terminal showing its blank primary screen; `is_newline_carriage_return`
    /// tells whether a line feed also returns to the first column.
    pub fn new(is_newline_carriage_return: bool) -> (r: Self)
        ensures
            r.wf(),
            r.model().encoder == default_encoder_settings(),
            r.model().display.is_alternate == false,
            r.model().display.size == (Vector2 { x: 1, y: 1 }),
            r.model().display.cursor_status == default_cursor_status(),
            r.model().display.primary == (ViewportModel {
                pen: dark_pen(),
                default_pen: dark_pen(),
                is_newline_carriage_return,
                ..blank_model(default_viewport_size(), r.model().display.primary.history)
            }),
            r.model().display.alternate == (ViewportModel {
                default_pen: dark_pen(),
                is_newline_carriage_return,
                ..blank_model(default_viewport_size(), None)
            }),
            r.model().display.primary.history matches Some(h) && h.lines.len() == 0 && h.total == 0,
    {
        let mut display = TerminalDisplay::default();
        display.set_is_newline_carriage_return(is_newline_carriage_return);
        let default_pen = Pen {
            background_colour: xterm_colour(0),
            foreground_colour: xterm_colour(15),
            style_flags: StyleFlags::empty(),
        };
        display.set_default_pen(default_pen);
        let viewport = display.get_current_viewport_mut();
        viewport.set_pen(default_pen);
        let r = TerminalCore { display, encoder: EncoderSettings::default() };
        proof {
            assert(r.model().display.primary =~= (ViewportModel {
                pen: dark_pen(),
                default_pen: dark_pen(),
                is_newline_carriage_return,
                ..blank_model(default_viewport_size(), r.model().display.primary.history)
            }));
            assert(r.model().display.alternate =~= (ViewportModel {
                default_pen: dark_pen(),
                is_newline_carriage_return,
                ..blank_model(default_viewport_size(), None)
            }));
        }
        r
    }

    /// The display.
    pub fn get_display(&self) -> (r: &TerminalDisplay)
        requires
            self.wf(),
        ensures
            r.wf(),
            r.model() == self.model().display,
    {
        &self.display
    }

    /// The display, to change; the rest stays as it is.
    pub fn get_display_mut(&mut self) -> (r: &mut TerminalDisplay)
        requires
            old(self).wf(),
        ensures
            r.wf(),
            r.model() == old(self).model().display,
            final(r).wf() ==> final(self).wf(),
            final(self).model() == (CoreModel { display: final(r).model(), ..old(self).model() }),
    {
        &mut self.display
    }

    /// How input is reported to the program.
    pub fn get_encoder(&self) -> (r: EncoderSettings)
        ensures
            r == self.model().encoder,
    {
        self.encoder
    }

    /// Writes the plain text `buf` to the shown screen; the window is to be redrawn.
    pub fn on_ascii_data(&mut self, buf: &[u8]) -> (r: Option<WindowAction>)
        requires
            old(self).wf(),
        ensures
            final(self).wf(),
            final(self).model() == old(self).model().after_ascii(buf@),
            r == Some(WindowAction::Refresh),
    {
        let ghost target = self.model().after_ascii(buf@);
        let mut i: usize = 0;
        proof { assert(buf@.skip(0) =~= buf@); }
        while i < buf.len()
            invariant
                self.wf(),
                i <= buf@.len(),
                target == self.model().after_ascii(buf@.skip(i as int)),
            decreases buf@.len() - i,
        {
            let b = buf[i];
            proof {
                let rest = buf@.skip(i as int);
                assert(rest[0] == b);
                assert(rest.drop_first() =~= buf@.skip(i + 1));
            }
            let viewport = self.display.get_current_viewport_mut();
            viewport.write_ascii(b);
            i = i + 1;
        }
        Some(WindowAction::Refresh)
    }

    /// Writes `character` to the shown screen with the pen; the window is to be redrawn.
    pub fn on_utf8(&mut self, character: char) -> (r: Option<WindowAction>)
        requires
            old(self).wf(),
        ensures
            final(self).wf(),
            final(self).model() == old(self).model().with_screen(
                old(self).model().display.current().written(Cell { character, pen: old(self).model().display.current().pen })),
            r == Some(WindowAction::Refresh),
    {
        let viewport = self.display.get_current_viewport_mut();
        viewport.write_utf8(character);
        Some(WindowAction::Refresh)
    }

    /// Applies a graphic style request to the pen of the shown screen.
    pub fn set_graphic_style(&mut self, style: GraphicStyle)
        requires
            old(self).wf(),
        ensures
            final(self).wf(),
            final(self).model() == old(self).model().after_command(Command::SetGraphicStyle(style)),
    {
        let viewport = self.display.get_current_viewport_mut();
        let pen = viewport.get_pen();
        let default_pen = viewport.get_default_pen();
        viewport.set_pen(styled_pen(pen, default_pen, style));
    }

    /// Whether the terminal takes `c` in its present state (see `accepts`).
    pub fn accepts_command(&self, c: &Command) -> (r: bool)
        requires
            self.wf(),
        ensures
            r == accepts(self.model().display.current(), *c),
    {
        let viewport = self.display.get_current_viewport();
        proof { viewport.lemma_model_shape(); }
        let cursor = viewport.get_cursor();
        let size = viewport.get_size();
        match c {
            Command::EraseInDisplay(EraseMode::FromCursorToEnd) => cursor.x <= viewport.get_row(cursor.y).1.length,
            Command::EraseInDisplay(EraseMode::FromCursorToStart) => cursor.x < size.x,
            Command::EraseInLine(EraseMode::FromCursorToStart) => cursor.x < size.x,
            Command::DeleteCharacters(_) => cursor.x < size.x,
            _ => true,
        }
    }

    /// Carries out a request that changes a setting rather than the shown screen.
    fn apply_setting(&mut self, c: Command) -> (r: Option<WindowAction>)
        requires
            old(self).wf(),
            !is_screen_command(c),
        ensures
            final(self).wf(),
            final(self).model() == old(self).model().after_setting(c),
            r == action_after(c),
    {
        match c {
            Command::SetCursorBlinking(_) | Command::SetCursorVisible(_) | Command::SetCursorStyle(_) => {
                self.apply_cursor_look(c);
                Some(WindowAction::Refresh)
            },
            Command::SetAlternateBuffer(b) => {
                self.switch_screen(b);
                None
            },
            Command::WindowAction(action) => Some(action),
            _ => {
                self.apply_input_setting(c);
                None
            },
        }
    }

    /// Carries out a request on how the cursor is drawn.
    fn apply_cursor_look(&mut self, c: Command)
        requires
            old(self).wf(),
            c is SetCursorBlinking || c is SetCursorVisible || c is SetCursorStyle,
        ensures
            final(self).wf(),
            final(self).model() == old(self).model().after_setting(c),
    {
        let status = self.display.get_cursor_status();
        match c {
            Command::SetCursorBlinking(b) => self.display.set_cursor_status(CursorStatus { is_blinking: b, ..status }),
            Command::SetCursorVisible(b) => self.display.set_cursor_status(CursorStatus { is_visible: b, ..status }),
            Command::SetCursorStyle(style) => self.display.set_cursor_status(CursorStatus { style, ..status }),
            _ => {},
        }
    }

    /// Carries out a request on how keys and the mouse are reported.
    fn apply_input_setting(&mut self, c: Command)
        requires
            old(self).wf(),
            !is_screen_command(c),
            !(c is SetCursorBlinking || c is SetCursorVisible || c is SetCursorStyle || c is SetAlternateBuffer || c is WindowAction),
        ensures
            final(self).wf(),
            final(self).model() == old(self).model().after_setting(c),
    {
        match c {
            Command::SetKeypadMode(m) => {
                self.encoder = EncoderSettings { keypad_input_mode: m, ..self.encoder };
            },
            Command::SetCursorKeyInputMode(m) => {
                self.encoder = EncoderSettings { cursor_key_input_mode: m, ..self.encoder };
            },
            Command::SetBracketedPasteMode(b) => {
                self.encoder = EncoderSettings { is_bracketed_paste_mode: b, ..self.encoder };
            },
            Command::SetMouseTrackingMode(m) => {
                let mode = if m == MouseTrackingMode::Highlight { MouseTrackingMode::Normal } else { m };
                self.encoder = EncoderSettings { mouse_tracking_mode: mode, ..self.encoder };
            },
            Command::SetMouseCoordinateFormat(f) => {
                self.encoder = EncoderSettings { mouse_coordinate_format: f, ..self.encoder };
            },
            Command::SetReportFocus(b) => {
                self.encoder = EncoderSettings { is_report_focus: b, ..self.encoder };
            },
            _ => {},
        }
    }

    /// Shows the alternate screen or the primary one, at the display's size.
    fn switch_screen(&mut self, is_alternate: bool)
        requires
            old(self).wf(),
        ensures
            final(self).wf(),
            final(self).model() == old(self).model().after_setting(Command::SetAlternateBuffer(is_alternate)),
    {
        self.display.set_is_alternate(is_alternate);
    }

    /// Carries out the escape sequence `c` and tells what the window is to do.
    pub fn on_vt100(&mut self, c: Command) -> (r: Option<WindowAction>)
        requires
            old(self).wf(),
            accepts(old(self).model().display.current(), c),
        ensures
            final(self).wf(),
            final(self).model() == old(self).model().after_command(c),
            r == action_after(c),
    {
        if is_screen_command_exec(&c) {
            let viewport = self.display.get_current_viewport_mut();
            let refresh = apply_to_screen(viewport, &c);
            proof { lemma_screen_command_action(c); }
            if refresh { Some(WindowAction::Refresh) } else { None }
        } else {
            self.apply_setting(c)
        }
    }
}

impl TerminalCore {
    /// Whatever requests a well-formed terminal carried out, the cursor of the
    /// shown screen is on it (its column may be one past the last).
    pub proof fn lemma_cursor_on_screen(&self)
        requires
            self.wf(),
        ensures
            self.model().display.current().cursor.x <= self.model().display.current().size.x,
            self.model().display.current().cursor.y < self.model().display.current().size.y,
    {
        self.display.lemma_current_on_screen();
    }

    /// Showing the alternate screen and then the primary one again gives back
    /// the primary screen as it was, where it has the size of the display.
    pub proof fn lemma_alternate_round_trip(&self)
        requires
            self.wf(),
            !self.model().display.is_alternate,
            self.model().display.primary.size == self.model().display.size,
        ensures
            ({
                let m = self.model();
                let back = m.after_command(Command::SetAlternateBuffer(true)).after_command(Command::SetAlternateBuffer(false));
                &&& back.display.primary == m.display.primary
                &&& !back.display.is_alternate
                &&& back.encoder == m.encoder
            }),
    {
        self.display.lemma_current_on_screen();
        let m = self.model();
        lemma_resize_to_same_size(m.display.primary);
    }

    /// Restoring the cursor right after saving it leaves the terminal as the
    /// save left it: the cursor comes back to where it was.
    pub proof fn lemma_save_then_restore_cursor(&self)
        requires
            self.wf(),
        ensures
            ({
                let saved = self.model().after_command(Command::SaveCursorToMemory);
                &&& saved.after_command(Command::RestoreCursorFromMemory) == saved
                &&& saved.display.current().cursor == self.model().display.current().cursor
            }),
    {
        self.display.lemma_current_on_screen();
        let m = self.model();
        let saved = m.after_command(Command::SaveCursorToMemory);
        let v = saved.display.current();
        assert(v.cursor_set(v.saved_cursor) =~= v);
        assert(saved.with_screen(v) =~= saved);
    }
}

/// A request on the shown screen asks the window for a redraw or for nothing.
pub proof fn lemma_screen_command_action(c: Command)
    requires
        is_screen_command(c),
    ensures
        action_after(c) == Some(WindowAction::Refresh) || action_after(c) == None::<WindowAction>,
{
}

/// Whether `c` acts on the shown screen.
fn is_screen_command_exec(c: &Command) -> (r: bool)
    ensures
        r == is_screen_command(*c),
{
    match c {
        Command::SetCursorBlinking(_) | Command::SetCursorVisible(_) | Command::SetCursorStyle(_)
        | Command::SetKeypadMode(_) | Command::SetCursorKeyInputMode(_) | Command::SetBracketedPasteMode(_)
        | Command::SetMouseTrackingMode(_) | Command::SetMouseCoordinateFormat(_) | Command::SetReportFocus(_)
        | Command::SetAlternateBuffer(_) | Command::WindowAction(_) => false,
        _ => true,
    }
}

/// The request for colour `k` (0 black, 1 red, 2 green, 3 yellow, 4 blue,
/// 5 magenta, 6 cyan, 7 white) among the eight normal colours: of the
/// background where `background`, of the foreground otherwise, in its bright
/// form where `bright` (SGR 30+k, 40+k, 90+k and 100+k).
pub open spec fn colour_request(k: nat, background: bool, bright: bool) -> GraphicStyle {
    if !background && !bright {
        if k == 0 { GraphicStyle::ForegroundBlack } else if k == 1 { GraphicStyle::ForegroundRed }
        else if k == 2 { GraphicStyle::ForegroundGreen } else if k == 3 { GraphicStyle::ForegroundYellow }
        else if k == 4 { GraphicStyle::ForegroundBlue } else if k == 5 { GraphicStyle::ForegroundMagenta }
        else if k == 6 { GraphicStyle::ForegroundCyan } else { GraphicStyle::ForegroundWhite }
    } else if background && !bright {
        if k == 0 { GraphicStyle::BackgroundBlack } else if k == 1 { GraphicStyle::BackgroundRed }
        else if k == 2 { GraphicStyle::BackgroundGreen } else if k == 3 { GraphicStyle::BackgroundYellow }
        else if k == 4 { GraphicStyle::BackgroundBlue } else if k == 5 { GraphicStyle::BackgroundMagenta }
        else if k == 6 { GraphicStyle::BackgroundCyan } else { GraphicStyle::BackgroundWhite }
    } else if !background {
        if k == 0 { GraphicStyle::BrightForegroundBlack } else if k == 1 { GraphicStyle::BrightForegroundRed }
        else if k == 2 { GraphicStyle::BrightForegroundGreen } else if k == 3 { GraphicStyle::BrightForegroundYellow }
        else if k == 4 { GraphicStyle::BrightForegroundBlue } else if k == 5 { GraphicStyle::BrightForegroundMagenta }
        else if k == 6 { GraphicStyle::BrightForegroundCyan } else { GraphicStyle::BrightForegroundWhite }
    } else {
        if k == 0 { GraphicStyle::BrightBackgroundBlack } else if k == 1 { GraphicStyle::BrightBackgroundRed }
        else if k == 2 { GraphicStyle::BrightBackgroundGreen } else if k == 3 { GraphicStyle::BrightBackgroundYellow }
        else if k == 4 { GraphicStyle::BrightBackgroundBlue } else if k == 5 { GraphicStyle::BrightBackgroundMagenta }
        else if k == 6 { GraphicStyle::BrightBackgroundCyan } else { GraphicStyle::BrightBackgroundWhite }
    }
}

/// A colour request for normal colour `k` sets the foreground (or the
/// background) of the pen to palette entry `k`, or `8 + k` for the bright
/// form, and leaves the rest of the pen as it was; on the screen, it is the
/// pen the next characters are written with.
pub proof fn lemma_colour_requests_pick_palette_entries(pen: Pen, default_pen: Pen, k: nat, v: ViewportModel)
    requires
        k < 8,
    ensures
        styled(pen, default_pen, colour_request(k, false, false)) == (Pen { foreground_colour: xterm_colour_spec(k), ..pen }),
        styled(pen, default_pen, colour_request(k, true, false)) == (Pen { background_colour: xterm_colour_spec(k), ..pen }),
        styled(pen, default_pen, colour_request(k, false, true)) == (Pen { foreground_colour: xterm_colour_spec(8 + k), ..pen }),
        styled(pen, default_pen, colour_request(k, true, true)) == (Pen { background_colour: xterm_colour_spec(8 + k), ..pen }),
        screen_after(v, Command::SetGraphicStyle(colour_request(k, false, false))).pen
            == (Pen { foreground_colour: xterm_colour_spec(k), ..v.pen }),
        screen_after(v, Command::SetGraphicStyle(colour_request(k, true, false))).pen
            == (Pen { background_colour: xterm_colour_spec(k), ..v.pen }),
        styled(pen, default_pen, GraphicStyle::ForegroundDefault) == (Pen { foreground_colour: default_pen.foreground_colour, ..pen }),
        styled(pen, default_pen, GraphicStyle::BackgroundDefault) == (Pen { background_colour: default_pen.background_colour, ..pen }),
        styled(pen, default_pen, GraphicStyle::ResetAll) == default_pen,
{
}

} // verus!
