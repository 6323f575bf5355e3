//! Shared vocabulary between the compiler, the rasterizer and the player.
use vstd::prelude::*;

verus! {

/// One of the eight basic terminal colours.
#[derive(Debug, Clone, Copy, PartialEq, Eq, Structural)]
pub enum NamedColor {
    Black,
    Red,
    Green,
    Yellow,
    Blue,
    Magenta,
    Cyan,
    White,
}

/// A colour: either a named terminal colour or an explicit RGB triple.
#[derive(Debug, Clone, Copy, PartialEq, Eq, Structural)]
pub enum Color {
    Named(NamedColor),
    Rgb { r: u8, g: u8, b: u8 },
}

/// Foreground / background colour plus bold and dim flags.
#[derive(Debug, Clone, Copy, PartialEq, Eq, Structural)]
pub struct Style {
    pub fg: Option<Color>,
    pub bg: Option<Color>,
    pub bold: bool,
    pub dim: bool,
}

/// The style with no colour, not bold and not dim.
pub open spec fn default_style() -> Style {
    Style { fg: None, bg: None, bold: false, dim: false }
}

impl Style {
    /// The default style: no colours, not bold, not dim.
    pub fn plain() -> (r: Style)
        ensures
            r == default_style(),
    {
        Style { fg: None, bg: None, bold: false, dim: false }
    }

    /// Whether this style equals the default one (and may be omitted when stored).
    pub fn is_default(&self) -> (r: bool)
        ensures
            r == (*self == default_style()),
    {
        self.fg.is_none() && self.bg.is_none() && !self.bold && !self.dim
    }
}

impl Default for Style {
    fn default() -> (r: Style)
        ensures
            r == default_style(),
    {
        Style::plain()
    }
}

/// One absolute-position, single-character, styled paint instruction.
#[derive(Debug, Clone, Copy, PartialEq, Eq, Structural)]
pub struct DrawOp {
    pub x: u16,
    pub y: u16,
    pub ch: char,
    pub style: Style,
    pub z_order: i32,
}

/// The flat list of draw instructions for one frame.
#[derive(Debug, Clone)]
pub struct ResolvedScene {
    pub width: u16,
    pub height: u16,
    pub ops: Vec<DrawOp>,
}

/// The terminal size a presentation was compiled for.
#[derive(Debug, Clone, Copy, PartialEq, Eq, Structural)]
pub struct TerminalContract {
    pub width: u16,
    pub height: u16,
}

/// One character cell of a rasterized grid.
#[derive(Debug, Clone, Copy, PartialEq, Eq, Structural)]
pub struct Cell {
    pub ch: char,
    pub style: Style,
}

/// The cell of an untouched grid position: a space in the default style.
pub open spec fn blank_cell() -> Cell {
    Cell { ch: ' ', style: default_style() }
}

impl Cell {
    /// A space in the default style.
    pub fn blank() -> (r: Cell)
        ensures
            r == blank_cell(),
    {
        Cell { ch: ' ', style: Style::plain() }
    }
}

impl Default for Cell {
    fn default() -> (r: Cell)
        ensures
            r == blank_cell(),
    {
        Cell::blank()
    }
}

/// A changed cell of a diff frame.
#[derive(Debug, Clone, Copy, PartialEq, Eq, Structural)]
pub struct CellChange {
    pub x: u16,
    pub y: u16,
    pub cell: Cell,
}

/// An encoded frame: a whole grid, or the cells changed since the previous frame.
#[derive(Debug, Clone)]
pub enum Frame {
    Full { cells: Vec<Vec<Cell>> },
    Diff { changes: Vec<CellChange> },
}

/// A named position in the frame sequence.
#[derive(Debug, Clone)]
pub struct Marker {
    pub frame_index: usize,
    pub label: String,
}

/// The playable artifact: terminal size plus the ordered frame sequence.
#[derive(Debug, Clone)]
pub struct PlayablePresentation {
    pub contract: TerminalContract,
    pub frames: Vec<Frame>,
    pub markers: Vec<Marker>,
}

} // verus!
