//! Positions in the buffer and the size of the terminal.

use vstd::prelude::*;

verus! {

/// A caret position: `x` is a column counted in grapheme clusters, `y` a row.
/// `x` may be the length of the row, and `y` the number of rows.
#[derive(PartialEq, Eq, Structural, Clone, Copy, Debug)]
pub struct Position {
    pub x: usize,
    pub y: usize,
}

impl Default for Position {
    fn default() -> (p: Self)
        ensures
            p == (Position { x: 0, y: 0 }),
    {
        Position { x: 0, y: 0 }
    }
}

/// The size of the text area, in character cells.
#[derive(PartialEq, Eq, Structural, Clone, Copy, Debug)]
pub struct ScreenSize {
    pub width: u16,
    pub height: u16,
}

/// Rows of the terminal that are kept for the status bar and the message bar.
pub const RESERVED_ROWS: u16 = 2;

impl ScreenSize {
    /// The text area of a terminal of `columns` by `rows` cells: all of it
    /// but the rows kept for the two bars.
    pub fn for_terminal(columns: u16, rows: u16) -> (size: Self)
        ensures
            size.width == columns,
            size.height == if rows > RESERVED_ROWS {
                rows - RESERVED_ROWS
            } else {
                0
            },
    {
        ScreenSize { width: columns, height: rows.saturating_sub(RESERVED_ROWS) }
    }
}

/// One coordinate of a cell of the terminal, which counts from 1 and in 16
/// bits: the coordinate after `at`, cut to its low 16 bits.
pub open spec fn cell_coordinate(at: usize) -> u16 {
    let next: int = if at < usize::MAX {
        at + 1
    } else {
        at as int
    };
    (next % 0x10000) as u16
}

/// The cell of the terminal that shows position `at` of the window.
pub fn terminal_cell(at: &Position) -> (cell: (u16, u16))
    ensures
        cell.0 == cell_coordinate(at.x),
        cell.1 == cell_coordinate(at.y),
{
    let x = at.x.saturating_add(1);
    let y = at.y.saturating_add(1);
    ((x % 0x10000) as u16, (y % 0x10000) as u16)
}

} // verus!
