//! The values a terminal screen is made of: positions, colours, styles and cells.
use vstd::prelude::*;

verus! {

/// The size of a pseudo-terminal in character cells, as its console API
/// takes it.
#[derive(Clone, Copy, Debug, PartialEq, Eq, Structural)]
pub struct Size {
    width: i16,
    height: i16,
}

impl Size {
    /// The columns.
    pub closed spec fn width(self) -> i16 {
        self.width
    }

    /// The rows.
    pub closed spec fn height(self) -> i16 {
        self.height
    }

    /// A size of `width` columns and `height` rows.
    pub fn new(width: i16, height: i16) -> (r: Self)
        ensures
            r.width() == width,
            r.height() == height,
    {
        Size { width, height }
    }
}

impl Default for Size {
    /// 128 columns and 32 rows.
    fn default() -> (r: Self)
        ensures
            r.width() == 128,
            r.height() == 32,
    {
        Size { width: 128, height: 32 }
    }
}

/// A pair of sizes or coordinates: columns in `x`, rows in `y`.
#[derive(Clone, Copy, Debug, PartialEq, Eq, Structural)]
pub struct Vector2 {
    pub x: usize,
    pub y: usize,
}

impl Vector2 {
    pub fn new(x: usize, y: usize) -> (r: Self)
        ensures
            r.x == x,
            r.y == y,
    {
        Vector2 { x, y }
    }
}

/// A 24-bit colour.
#[derive(Clone, Copy, Debug, PartialEq, Eq, Structural)]
pub struct Rgb8 {
    pub r: u8,
    pub g: u8,
    pub b: u8,
}

pub const STYLE_NONE: u8 = 0b0000_0000;
pub const STYLE_BOLD: u8 = 0b0000_0001;
pub const STYLE_DIM: u8 = 0b0000_0010;
pub const STYLE_ITALIC: u8 = 0b0000_0100;
pub const STYLE_UNDERLINE: u8 = 0b0000_1000;
pub const STYLE_BLINKING: u8 = 0b0001_0000;
pub const STYLE_INVERSE: u8 = 0b0010_0000;
pub const STYLE_HIDDEN: u8 = 0b0100_0000;
pub const STYLE_STRIKETHROUGH: u8 = 0b1000_0000;

/// A set of text styles, one bit each.
#[derive(Clone, Copy, Debug, PartialEq, Eq, Structural)]
pub struct StyleFlags {
    pub bits: u8,
}

impl StyleFlags {
    /// No style.
    pub fn empty() -> (r: Self)
        ensures
            r.bits == STYLE_NONE,
    {
        StyleFlags { bits: STYLE_NONE }
    }

    /// Adds the styles in `flags`.
    pub fn insert(&mut self, flags: u8)
        ensures
            final(self).bits == old(self).bits | flags,
    {
        self.bits = self.bits | flags;
    }

    /// Removes the styles in `flags`.
    pub fn remove(&mut self, flags: u8)
        ensures
            final(self).bits == old(self).bits & !flags,
    {
        self.bits = self.bits & !flags;
    }

    /// Whether every style in `flags` is set.
    pub fn contains(&self, flags: u8) -> (r: bool)
        ensures
            r == (self.bits & flags == flags),
    {
        self.bits & flags == flags
    }
}

/// The colours and styles that new text is written with.
#[derive(Clone, Copy, Debug, PartialEq, Eq, Structural)]
pub struct Pen {
    pub background_colour: Rgb8,
    pub foreground_colour: Rgb8,
    pub style_flags: StyleFlags,
}

pub open spec fn default_pen() -> Pen {
    Pen {
        background_colour: Rgb8 { r: 0, g: 0, b: 0 },
        foreground_colour: Rgb8 { r: 255, g: 255, b: 255 },
        style_flags: StyleFlags { bits: STYLE_NONE },
    }
}

impl Default for Pen {
    fn default() -> (r: Self)
        ensures
            r == default_pen(),
    {
        Pen {
            background_colour: Rgb8 { r: 0, g: 0, b: 0 },
            foreground_colour: Rgb8 { r: 255, g: 255, b: 255 },
            style_flags: StyleFlags { bits: STYLE_NONE },
        }
    }
}

/// One character position of the screen.
#[derive(Clone, Copy, Debug, PartialEq, Eq, Structural)]
pub struct Cell {
    pub character: char,
    pub pen: Pen,
}

pub open spec fn default_cell() -> Cell {
    Cell { character: ' ', pen: default_pen() }
}

impl Default for Cell {
    fn default() -> (r: Self)
        ensures
            r == default_cell(),
    {
        Cell { character: ' ', pen: Pen::default() }
    }
}

/// How far a screen row is written, and whether it ends in a line break.
#[derive(Clone, Copy, Debug, PartialEq, Eq, Structural)]
pub struct LineStatus {
    pub length: usize,
    pub is_linebreak: bool,
}

pub open spec fn default_status() -> LineStatus {
    LineStatus { length: 0, is_linebreak: false }
}

impl Default for LineStatus {
    fn default() -> (r: Self)
        ensures
            r == default_status(),
    {
        LineStatus { length: 0, is_linebreak: false }
    }
}

} // verus!
