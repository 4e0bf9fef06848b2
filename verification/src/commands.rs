//! The requests a terminal program makes through escape sequences, once
//! decoded, and the window requests the terminal passes on.
use vstd::prelude::*;
use crate::primitives::Rgb8;

verus! {

/// Which part of the screen or of a row an erase request covers.
#[derive(Clone, Copy, Debug, PartialEq, Eq, Structural)]
pub enum EraseMode {
    FromCursorToEnd,
    FromCursorToStart,
    EntireDisplay,
    SavedLines,
}

/// A change of the pen that new text is written with.
#[derive(Clone, Copy, Debug, PartialEq, Eq, Structural)]
pub enum GraphicStyle {
    ResetAll,
    EnableBold,
    EnableDim,
    EnableItalic,
    EnableUnderline,
    EnableBlinking,
    EnableInverse,
    EnableHidden,
    EnableStrikethrough,
    DisableWeight,
    DisableItalic,
    DisableUnderline,
    DisableBlinking,
    DisableInverse,
    DisableHidden,
    DisableStrikethrough,
    ForegroundBlack,
    ForegroundRed,
    ForegroundGreen,
    ForegroundYellow,
    ForegroundBlue,
    ForegroundMagenta,
    ForegroundCyan,
    ForegroundWhite,
    ForegroundExtended,
    ForegroundDefault,
    BackgroundBlack,
    BackgroundRed,
    BackgroundGreen,
    BackgroundYellow,
    BackgroundBlue,
    BackgroundMagenta,
    BackgroundCyan,
    BackgroundWhite,
    BackgroundExtended,
    BackgroundDefault,
    BrightForegroundBlack,
    BrightForegroundRed,
    BrightForegroundGreen,
    BrightForegroundYellow,
    BrightForegroundBlue,
    BrightForegroundMagenta,
    BrightForegroundCyan,
    BrightForegroundWhite,
    BrightBackgroundBlack,
    BrightBackgroundRed,
    BrightBackgroundGreen,
    BrightBackgroundYellow,
    BrightBackgroundBlue,
    BrightBackgroundMagenta,
    BrightBackgroundCyan,
    BrightBackgroundWhite,
}

/// The shape the cursor is drawn in.
#[derive(Clone, Copy, Debug, PartialEq, Eq, Structural)]
pub enum CursorStyle {
    Block,
    Underline,
    Bar,
}

/// Whether keys send their plain codes or their application codes.
#[derive(Clone, Copy, Debug, PartialEq, Eq, Structural)]
pub enum InputMode {
    Numeric,
    Application,
}

/// Which mouse events are reported to the program.
#[derive(Clone, Copy, Debug, PartialEq, Eq, Structural)]
pub enum MouseTrackingMode {
    Disabled,
    Normal,
    Highlight,
    ButtonEvent,
    AnyEvent,
}

/// How mouse positions are written in reports.
#[derive(Clone, Copy, Debug, PartialEq, Eq, Structural)]
pub enum MouseCoordinateFormat {
    Normal,
    Utf8,
    Sgr,
    Urxvt,
}

/// A request to the window that shows the terminal.
#[derive(Clone, Debug, PartialEq, Eq)]
pub enum WindowAction {
    /// Draw the screen again.
    Refresh,
    /// Show a new window title.
    SetWindowTitle(String),
}

/// A screen position counted from one, as escape sequences write it.
#[derive(Clone, Copy, Debug, PartialEq, Eq, Structural)]
pub struct GridPosition {
    pub x: u16,
    pub y: u16,
}

/// A decoded escape sequence.
#[derive(Clone, Debug, PartialEq, Eq)]
pub enum Command {
    SetHyperlink(String),
    SetGraphicStyle(GraphicStyle),
    SetBackgroundColourRgb(Rgb8),
    SetForegroundColourRgb(Rgb8),
    SetBackgroundColourTable(u8),
    SetForegroundColourTable(u8),
    EraseInDisplay(EraseMode),
    EraseInLine(EraseMode),
    ReplaceWithSpaces(u16),
    InsertSpaces(u16),
    DeleteCharacters(u16),
    InsertLines(u16),
    DeleteLines(u16),
    MoveCursorPositionViewport(GridPosition),
    MoveCursorUp(u16),
    MoveCursorDown(u16),
    MoveCursorRight(u16),
    MoveCursorLeft(u16),
    MoveCursorReverseIndex,
    MoveCursorNextLine(u16),
    MoveCursorPreviousLine(u16),
    MoveCursorHorizontalAbsolute(u16),
    MoveCursorVerticalAbsolute(u16),
    ScrollUp(u16),
    ScrollDown(u16),
    SaveCursorToMemory,
    RestoreCursorFromMemory,
    SetCursorBlinking(bool),
    SetCursorVisible(bool),
    SetCursorStyle(CursorStyle),
    SetKeypadMode(InputMode),
    SetCursorKeyInputMode(InputMode),
    SetBracketedPasteMode(bool),
    SetMouseTrackingMode(MouseTrackingMode),
    SetMouseCoordinateFormat(MouseCoordinateFormat),
    SetReportFocus(bool),
    WindowAction(WindowAction),
    SetAlternateBuffer(bool),
}

} // verus!
