//! The text area of the terminal, as far as the editor's logic needs it.

use vstd::prelude::*;

verus! {

/// The size of the text area in character cells.
#[derive(Clone, Copy, PartialEq, Eq, Structural, Debug)]
pub struct Size {
    pub width: u16,
    pub height: u16,
}

impl Size {
    /// The text area of a terminal of `columns` by `rows` cells: all of its
    /// columns, and its rows but the two at the bottom, which hold the
    /// status bar and the message bar.
    pub fn of_terminal(columns: u16, rows: u16) -> (size: Size)
        ensures
            size.width == columns,
            size.height == rows.saturating_sub(2),
    {
        Size { width: columns, height: rows.saturating_sub(2) }
    }
}

} // verus!
