use vstd::prelude::*;

verus! {

/// Index of a grapheme within a line.
pub type GraphemeIdx = usize;

/// Index of a line within a buffer.
pub type LineIdx = usize;

/// Index of a byte within a UTF-8 encoded string.
pub type ByteIdx = usize;

/// A screen column.
pub type ColIdx = usize;

/// A screen row.
pub type RowIdx = usize;

/// The program's name, shown in the welcome message and the window title.
pub const NAME: &'static str = "yonro_text_editor";

/// The program's version, shown in the welcome message.
pub const VERSION: &'static str = "0.1.0";

/// A cell on the screen.
#[derive(Clone, Copy, Debug, PartialEq, Eq, Structural)]
pub struct Position {
    pub row: RowIdx,
    pub col: ColIdx,
}

impl Position {
    /// The cell at `(row, col)`.
    pub fn new(row: RowIdx, col: ColIdx) -> (r: Self)
        ensures
            r.row == row && r.col == col,
    {
        Position { row, col }
    }
}

impl Default for Position {
    fn default() -> (r: Self)
        ensures
            r.row == 0 && r.col == 0,
    {
        Position { row: 0, col: 0 }
    }
}

/// The extent of an area on the screen.
#[derive(Clone, Copy, Debug, PartialEq, Eq, Structural)]
pub struct Size {
    pub height: usize,
    pub width: usize,
}

impl Default for Size {
    fn default() -> (r: Self)
        ensures
            r.height == 0 && r.width == 0,
    {
        Size { height: 0, width: 0 }
    }
}

/// An area on the screen: its top-left cell and its size.
#[derive(Clone, Copy, Debug, PartialEq, Eq, Structural)]
pub struct Rect {
    pub position: Position,
    pub size: Size,
}

impl Rect {
    /// The empty area at the top-left corner.
    pub open spec fn default_spec() -> Rect {
        Rect { position: Position { row: 0, col: 0 }, size: Size { height: 0, width: 0 } }
    }
}

impl Default for Rect {
    fn default() -> (r: Self)
        ensures
            r == Rect::default_spec(),
    {
        Rect { position: Position { row: 0, col: 0 }, size: Size { height: 0, width: 0 } }
    }
}

/// A place in a document: a line and a grapheme within it.
#[derive(Clone, Copy, Debug, PartialEq, Eq, Structural)]
pub struct Location {
    pub grapheme_idx: GraphemeIdx,
    pub line_idx: LineIdx,
}

impl Default for Location {
    fn default() -> (r: Self)
        ensures
            r.grapheme_idx == 0 && r.line_idx == 0,
    {
        Location { grapheme_idx: 0, line_idx: 0 }
    }
}

} // verus!
