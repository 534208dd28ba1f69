//! The editor as mathematical values, and what each step does to them.
use vstd::prelude::*;

use crate::text::{char_window, is_space, is_word_char};
use crate::types::{Action, Cursor, Viewport};

verus! {

/// What an editor holds: its lines, cursor, viewport and dirty flag.
pub struct EditorState {
    pub lines: Seq<Seq<char>>,
    pub cursor: Cursor,
    pub viewport: Viewport,
    pub dirty: bool,
}

/// Number of characters of line `row`; 0 where there is none.
pub open spec fn line_len(lines: Seq<Seq<char>>, row: int) -> nat {
    if 0 <= row < lines.len() {
        lines[row].len()
    } else {
        0
    }
}

/// The cursor names a line and a position on it (at most its end).
pub open spec fn cursor_valid(lines: Seq<Seq<char>>, c: Cursor) -> bool {
    c.row < lines.len() && c.col <= lines[c.row as int].len()
}

/// One axis of the window shows `pos`: inside it, or at its offset where
/// the window is empty.
pub open spec fn axis_visible(pos: usize, offset: usize, size: usize) -> bool {
    if size == 0 {
        offset == pos
    } else {
        offset <= pos < offset + size
    }
}

/// The viewport shows the cursor on both axes.
pub open spec fn cursor_visible(c: Cursor, v: Viewport) -> bool {
    axis_visible(c.row, v.row_offset, v.height) && axis_visible(c.col, v.col_offset, v.width)
}

/// What holds of an editor between any two calls: at least one line, a
/// valid cursor, and a viewport that shows it.
pub open spec fn state_inv(s: EditorState) -> bool {
    &&& s.lines.len() > 0
    &&& cursor_valid(s.lines, s.cursor)
    &&& cursor_visible(s.cursor, s.viewport)
}

/// The offset nearest to `offset` on one axis that shows `pos`.
pub open spec fn fit_offset(pos: usize, offset: usize, size: usize) -> usize {
    if size == 0 || pos < offset {
        pos
    } else if pos >= offset + size {
        (pos + 1 - size) as usize
    } else {
        offset
    }
}

/// The viewport `v`, scrolled as little as needed to show `c`.
pub open spec fn fit_viewport(c: Cursor, v: Viewport) -> Viewport {
    Viewport {
        row_offset: fit_offset(c.row, v.row_offset, v.height),
        col_offset: fit_offset(c.col, v.col_offset, v.width),
        ..v
    }
}

/// A document of no lines becomes one empty line.
pub open spec fn clamp_lines(lines: Seq<Seq<char>>) -> Seq<Seq<char>> {
    if lines.len() == 0 {
        seq![Seq::empty()]
    } else {
        lines
    }
}

/// `c` moved to the last line if below it, then to the end of its line if
/// past it.
pub open spec fn clamp_cursor(lines: Seq<Seq<char>>, c: Cursor) -> Cursor {
    let row = if c.row >= lines.len() {
        (lines.len() - 1) as usize
    } else {
        c.row
    };
    let n = line_len(lines, row as int);
    Cursor { row, col: if c.col > n { n as usize } else { c.col } }
}

/// `s` with at least one line and a valid cursor.
pub open spec fn clamp_state(s: EditorState) -> EditorState {
    let lines = clamp_lines(s.lines);
    EditorState { lines, cursor: clamp_cursor(lines, s.cursor), ..s }
}

/// `s` with its viewport scrolled to show its cursor.
pub open spec fn fit_state(s: EditorState) -> EditorState {
    EditorState { viewport: fit_viewport(s.cursor, s.viewport), ..s }
}

pub open spec fn move_left(lines: Seq<Seq<char>>, c: Cursor) -> Cursor {
    if c.col > 0 {
        Cursor { col: (c.col - 1) as usize, ..c }
    } else if c.row > 0 {
        Cursor { row: (c.row - 1) as usize, col: line_len(lines, c.row - 1) as usize }
    } else {
        c
    }
}

pub open spec fn move_right(lines: Seq<Seq<char>>, c: Cursor) -> Cursor {
    if c.col < line_len(lines, c.row as int) {
        Cursor { col: (c.col + 1) as usize, ..c }
    } else if c.row + 1 < lines.len() {
        Cursor { row: (c.row + 1) as usize, col: 0 }
    } else {
        c
    }
}

pub open spec fn move_up(lines: Seq<Seq<char>>, c: Cursor) -> Cursor {
    if c.row == 0 {
        c
    } else {
        let n = line_len(lines, c.row - 1);
        Cursor { row: (c.row - 1) as usize, col: if c.col > n { n as usize } else { c.col } }
    }
}

pub open spec fn move_down(lines: Seq<Seq<char>>, c: Cursor) -> Cursor {
    if c.row + 1 >= lines.len() {
        c
    } else {
        let n = line_len(lines, c.row + 1);
        Cursor { row: (c.row + 1) as usize, col: if c.col > n { n as usize } else { c.col } }
    }
}

/// Going back from `(row, col)` over whitespace, and over line breaks, to
/// just after a character that is not whitespace, or to the document start.
pub open spec fn skip_space_back(lines: Seq<Seq<char>>, row: nat, col: nat) -> (nat, nat)
    decreases row, col,
{
    if col == 0 {
        if row == 0 {
            (0, 0)
        } else {
            skip_space_back(lines, (row - 1) as nat, line_len(lines, row - 1))
        }
    } else if is_space(lines[row as int][col - 1]) {
        skip_space_back(lines, row, (col - 1) as nat)
    } else {
        (row, col)
    }
}

/// Going forward from `(row, col)` over whitespace, and over line breaks,
/// to a character that is not whitespace, or to the end of the last line.
pub open spec fn skip_space_fwd(lines: Seq<Seq<char>>, row: nat, col: nat) -> (nat, nat)
    decreases lines.len() - row, line_len(lines, row as int) - col,
{
    if col >= line_len(lines, row as int) {
        if row + 1 < lines.len() {
            skip_space_fwd(lines, row + 1, 0)
        } else {
            (row, col)
        }
    } else if is_space(lines[row as int][col as int]) {
        skip_space_fwd(lines, row, col + 1)
    } else {
        (row, col)
    }
}

/// Start of the identifier run that ends at `col`.
pub open spec fn word_run_start(line: Seq<char>, col: nat) -> nat
    decreases col,
{
    if col > 0 && is_word_char(line[col - 1]) {
        word_run_start(line, (col - 1) as nat)
    } else {
        col
    }
}

/// End of the identifier run that starts at `col`.
pub open spec fn word_run_end(line: Seq<char>, col: nat) -> nat
    decreases line.len() - col,
{
    if col < line.len() && is_word_char(line[col as int]) {
        word_run_end(line, col + 1)
    } else {
        col
    }
}

/// Just before the token that precedes `c`: an identifier run, or one
/// other character that is not whitespace.
pub open spec fn word_left(lines: Seq<Seq<char>>, c: Cursor) -> Cursor {
    if c.row == 0 && c.col == 0 {
        c
    } else {
        let (r, k) = skip_space_back(lines, c.row as nat, c.col as nat);
        let line = lines[r as int];
        if k == 0 {
            Cursor { row: r as usize, col: 0 }
        } else if is_word_char(line[k - 1]) {
            Cursor { row: r as usize, col: word_run_start(line, k) as usize }
        } else {
            Cursor { row: r as usize, col: (k - 1) as usize }
        }
    }
}

/// Just after the token that follows `c`, or the end of the last line where
/// none follows.
pub open spec fn word_right(lines: Seq<Seq<char>>, c: Cursor) -> Cursor {
    let (r, k) = skip_space_fwd(lines, c.row as nat, c.col as nat);
    let line = lines[r as int];
    if k >= line.len() {
        Cursor { row: r as usize, col: line.len() as usize }
    } else if is_word_char(line[k as int]) {
        Cursor { row: r as usize, col: word_run_end(line, k) as usize }
    } else {
        Cursor { row: r as usize, col: (k + 1) as usize }
    }
}

/// The outcome of an edit: new lines, new cursor, and whether the content
/// changed.
pub struct Edit {
    pub lines: Seq<Seq<char>>,
    pub cursor: Cursor,
    pub mutated: bool,
}

pub open spec fn no_edit(lines: Seq<Seq<char>>, c: Cursor) -> Edit {
    Edit { lines, cursor: c, mutated: false }
}

/// `ch` placed at the cursor, which moves past it; a line that already holds
/// `usize::MAX` characters takes no more.
pub open spec fn insert_char(lines: Seq<Seq<char>>, c: Cursor, ch: char) -> Edit {
    let line = lines[c.row as int];
    if line.len() < usize::MAX {
        Edit {
            lines: lines.update(c.row as int, line.take(c.col as int) + seq![ch] + line.skip(
                c.col as int,
            )),
            cursor: Cursor { col: (c.col + 1) as usize, ..c },
            mutated: true,
        }
    } else {
        no_edit(lines, c)
    }
}

/// The line split at the cursor; the cursor goes to the start of the new line.
pub open spec fn insert_newline(lines: Seq<Seq<char>>, c: Cursor) -> Edit {
    let line = lines[c.row as int];
    Edit {
        lines: lines.update(c.row as int, line.take(c.col as int)).insert(
            c.row + 1,
            line.skip(c.col as int),
        ),
        cursor: Cursor { row: (c.row + 1) as usize, col: 0 },
        mutated: true,
    }
}

/// The character before the cursor removed, or the line joined onto the one
/// above at a line start.
pub open spec fn delete_backward(lines: Seq<Seq<char>>, c: Cursor) -> Edit {
    let line = lines[c.row as int];
    if c.col > 0 {
        Edit {
            lines: lines.update(c.row as int, line.take(c.col - 1) + line.skip(c.col as int)),
            cursor: Cursor { col: (c.col - 1) as usize, ..c },
            mutated: true,
        }
    } else if c.row > 0 {
        let prev = lines[c.row - 1];
        Edit {
            lines: lines.update(c.row - 1, prev + line).remove(c.row as int),
            cursor: Cursor { row: (c.row - 1) as usize, col: prev.len() as usize },
            mutated: true,
        }
    } else {
        no_edit(lines, c)
    }
}

/// The character at the cursor removed, or the next line joined onto this
/// one at a line end.
pub open spec fn delete_forward(lines: Seq<Seq<char>>, c: Cursor) -> Edit {
    let line = lines[c.row as int];
    if c.col < line.len() {
        Edit {
            lines: lines.update(c.row as int, line.take(c.col as int) + line.skip(c.col + 1)),
            cursor: c,
            mutated: true,
        }
    } else if c.row + 1 < lines.len() {
        Edit {
            lines: lines.update(c.row as int, line + lines[c.row + 1]).remove(c.row + 1),
            cursor: c,
            mutated: true,
        }
    } else {
        no_edit(lines, c)
    }
}

/// `a` only moves the cursor.
pub open spec fn is_movement(a: Action) -> bool {
    match a {
        Action::MoveLeft | Action::MoveRight | Action::MoveWordLeft | Action::MoveWordRight
        | Action::MoveUp | Action::MoveDown => true,
        _ => false,
    }
}

/// The effect of `a` on lines and cursor.
pub open spec fn action_edit(lines: Seq<Seq<char>>, c: Cursor, a: Action) -> Edit {
    match a {
        Action::MoveLeft => no_edit(lines, move_left(lines, c)),
        Action::MoveRight => no_edit(lines, move_right(lines, c)),
        Action::MoveWordLeft => no_edit(lines, word_left(lines, c)),
        Action::MoveWordRight => no_edit(lines, word_right(lines, c)),
        Action::MoveUp => no_edit(lines, move_up(lines, c)),
        Action::MoveDown => no_edit(lines, move_down(lines, c)),
        Action::Insert(ch) => if ch == '\n' {
            insert_newline(lines, c)
        } else {
            insert_char(lines, c, ch)
        },
        Action::DeleteBackward => delete_backward(lines, c),
        Action::DeleteForward => delete_forward(lines, c),
        Action::Newline => insert_newline(lines, c),
    }
}

/// `s` after the effect of `a`, with the dirty flag set where content changed.
pub open spec fn step_state(s: EditorState, a: Action) -> EditorState {
    let e = action_edit(s.lines, s.cursor, a);
    EditorState { lines: e.lines, cursor: e.cursor, viewport: s.viewport, dirty: s.dirty || e.mutated }
}

/// One call of `apply`: clamp, act, clamp again, scroll to the cursor.
pub open spec fn apply_state(s: EditorState, a: Action) -> EditorState {
    fit_state(clamp_state(step_state(clamp_state(s), a)))
}

/// `apply` called with each action of `actions` in turn.
pub open spec fn apply_all(s: EditorState, actions: Seq<Action>) -> EditorState
    decreases actions.len(),
{
    if actions.len() == 0 {
        s
    } else {
        apply_all(apply_state(s, actions[0]), actions.drop_first())
    }
}

/// The editor a new session starts with: cursor at the document start.
pub open spec fn initial_state(lines: Seq<Seq<char>>, v: Viewport) -> EditorState {
    fit_state(
        clamp_state(EditorState { lines, cursor: Cursor { row: 0, col: 0 }, viewport: v, dirty: false }),
    )
}

/// The lines that the viewport shows, each cut to its columns.
pub open spec fn visible_window(s: EditorState) -> Seq<Seq<char>> {
    let v = s.viewport;
    let n = s.lines.len();
    if v.height == 0 || v.row_offset >= n {
        Seq::empty()
    } else {
        let end = if v.row_offset + v.height < n { v.row_offset + v.height } else { n as int };
        Seq::new(
            (end - v.row_offset) as nat,
            |i: int| char_window(s.lines[v.row_offset + i], v.col_offset as int, v.width as int),
        )
    }
}

/// `a - b`, or 0 where `b` exceeds `a`.
pub open spec fn sat_sub(a: usize, b: usize) -> usize {
    if a >= b {
        (a - b) as usize
    } else {
        0
    }
}

/// A viewport that shows the cursor is left as it is.
pub proof fn lemma_fit_keeps(c: Cursor, v: Viewport)
    requires
        cursor_visible(c, v),
    ensures
        fit_viewport(c, v) == v,
{
}

/// Clamping gives at least one line and a valid cursor, and leaves a valid
/// cursor where it is.
pub proof fn lemma_clamp_valid(s: EditorState)
    ensures
        clamp_state(s).lines.len() > 0,
        cursor_valid(clamp_state(s).lines, clamp_state(s).cursor),
        s.lines.len() > 0 && cursor_valid(s.lines, s.cursor) ==> clamp_state(s) == s,
{
}

} // verus!
