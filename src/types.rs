//! Plain data of the editor: cursor position, visible window, and actions.
use vstd::prelude::*;

verus! {

/// A position in the document, in characters: `row` is a line index and
/// `col` the number of characters before the cursor on that line.
#[derive(Clone, Copy, Debug, PartialEq, Eq, Structural)]
pub struct Cursor {
    pub row: usize,
    pub col: usize,
}

impl Cursor {
    pub fn new(row: usize, col: usize) -> (r: Cursor)
        ensures
            r == (Cursor { row, col }),
    {
        Cursor { row, col }
    }
}

/// The visible window of the document: its top-left offset and its size in
/// lines and characters.
#[derive(Clone, Copy, Debug, PartialEq, Eq, Structural)]
pub struct Viewport {
    pub row_offset: usize,
    pub col_offset: usize,
    pub height: usize,
    pub width: usize,
}

impl Viewport {
    pub fn new(height: usize, width: usize) -> (r: Viewport)
        ensures
            r == (Viewport { row_offset: 0, col_offset: 0, height, width }),
    {
        Viewport { row_offset: 0, col_offset: 0, height, width }
    }
}

/// One editing or navigation step.
#[derive(Clone, Copy, Debug, PartialEq, Eq, Structural)]
pub enum Action {
    MoveLeft,
    MoveRight,
    MoveWordLeft,
    MoveWordRight,
    MoveUp,
    MoveDown,
    Insert(char),
    DeleteBackward,
    DeleteForward,
    Newline,
}

} // verus!
