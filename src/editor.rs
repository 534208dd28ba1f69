//! The editing engine: a buffer, a cursor and a viewport, changed one action
//! at a time.
use vstd::prelude::*;

use crate::buffer::Buffer;
use crate::model::{
    apply_state, clamp_state, cursor_valid, delete_backward, delete_forward, fit_state,
    initial_state, insert_char, insert_newline, lemma_clamp_valid, move_down,
    move_left, move_right, move_up, sat_sub, skip_space_back, skip_space_fwd, state_inv,
    visible_window, word_left, word_right, word_run_end, word_run_start, EditorState,
};
use crate::text::{char_count, chars_of, is_whitespace_char, slice_line, split_line, word_char};
use crate::types::{Action, Cursor, Viewport};

verus! {

/// Relies on `String::from(char)`: the string of the one character `c`.
#[verifier::external_body]
fn char_to_string(c: char) -> (r: String)
    ensures
        r@ == seq![c],
{
    String::from(c)
}

/// An editing session over one document.
#[derive(Clone, Debug)]
pub struct Editor {
    buffer: Buffer,
    cursor: Cursor,
    viewport: Viewport,
    dirty: bool,
}

impl View for Editor {
    type V = EditorState;

    closed spec fn view(&self) -> EditorState {
        EditorState {
            lines: self.buffer@,
            cursor: self.cursor,
            viewport: self.viewport,
            dirty: self.dirty,
        }
    }
}

/// At least one line, and a valid cursor.
pub open spec fn ready(s: EditorState) -> bool {
    s.lines.len() > 0 && cursor_valid(s.lines, s.cursor)
}

impl Editor {
    /// A session over `buffer`, with the cursor at the document start and
    /// `viewport` scrolled to show it.
    pub fn new(buffer: Buffer, viewport: Viewport) -> (r: Editor)
        ensures
            r@ == initial_state(buffer@, viewport),
            state_inv(r@),
            !r@.dirty,
    {
        let mut editor = Editor { buffer, cursor: Cursor::new(0, 0), viewport, dirty: false };
        editor.clamp_cursor();
        editor.ensure_cursor_visible();
        editor
    }

    pub fn buffer(&self) -> (r: &Buffer)
        ensures
            r@ == self@.lines,
    {
        &self.buffer
    }

    pub fn cursor(&self) -> (r: Cursor)
        ensures
            r == self@.cursor,
    {
        self.cursor
    }

    pub fn viewport(&self) -> (r: Viewport)
        ensures
            r == self@.viewport,
    {
        self.viewport
    }

    /// Takes `viewport`, scrolled as little as needed to show the cursor.
    pub fn set_viewport(&mut self, viewport: Viewport)
        ensures
            final(self)@ == fit_state(EditorState { viewport, ..old(self)@ }),
            ready(old(self)@) ==> state_inv(final(self)@),
    {
        self.viewport = viewport;
        self.ensure_cursor_visible();
    }

    pub fn is_dirty(&self) -> (r: bool)
        ensures
            r == self@.dirty,
    {
        self.dirty
    }

    /// Clears the dirty flag and nothing else.
    pub fn reset_dirty(&mut self)
        ensures
            final(self)@ == (EditorState { dirty: false, ..old(self)@ }),
    {
        self.dirty = false;
    }

    /// Clamps the cursor, performs `action`, sets the dirty flag where the
    /// content changed, clamps again and scrolls to the cursor.
    pub fn apply(&mut self, action: Action)
        ensures
            final(self)@ == apply_state(old(self)@, action),
            state_inv(final(self)@),
    {
        self.clamp_cursor();
        let mut mutated = false;
        match action {
            Action::MoveLeft => self.move_left(),
            Action::MoveRight => self.move_right(),
            Action::MoveWordLeft => self.move_word_left(),
            Action::MoveWordRight => self.move_word_right(),
            Action::MoveUp => self.move_up(),
            Action::MoveDown => self.move_down(),
            Action::Insert(ch) => {
                if ch == '\n' {
                    mutated = self.insert_newline();
                } else {
                    mutated = self.insert_char(ch);
                }
            },
            Action::DeleteBackward => mutated = self.delete_backward(),
            Action::DeleteForward => mutated = self.delete_forward(),
            Action::Newline => mutated = self.insert_newline(),
        }
        if mutated {
            self.dirty = true;
        }
        self.clamp_cursor();
        self.ensure_cursor_visible();
    }

    /// The lines that the viewport shows, each cut to its columns; rows past
    /// the document are left out.
    pub fn visible_lines(&self) -> (r: Vec<String>)
        ensures
            r@.map_values(|l: String| l@) == visible_window(self@),
    {
        let mut out: Vec<String> = Vec::new();
        if self.viewport.height == 0 {
            proof {
                assert(out@.map_values(|l: String| l@) =~= visible_window(self@));
            }
            return out;
        }
        let start = self.viewport.row_offset;
        let n = self.buffer.line_count();
        if start >= n {
            proof {
                assert(out@.map_values(|l: String| l@) =~= visible_window(self@));
            }
            return out;
        }
        let end = if n - start > self.viewport.height {
            start + self.viewport.height
        } else {
            n
        };
        let ghost w = visible_window(self@);
        let mut row = start;
        while row < end
            invariant
                start <= row <= end <= n,
                n == self@.lines.len(),
                start == self@.viewport.row_offset,
                w == visible_window(self@),
                w.len() == end - start,
                out@.map_values(|l: String| l@) == w.take(row - start),
            decreases end - row,
        {
            let line = self.buffer.line_at(row);
            let piece = slice_line(line, self.viewport.col_offset, self.viewport.width);
            let ghost before = out@.map_values(|l: String| l@);
            out.push(piece);
            proof {
                assert(piece@ == w[row - start]);
                assert(out@.map_values(|l: String| l@) =~= before.push(piece@));
                assert(out@.map_values(|l: String| l@) =~= w.take(row + 1 - start));
            }
            row = row + 1;
        }
        proof {
            assert(w.take(end - start) =~= w);
        }
        out
    }

    /// The cursor relative to the viewport's top-left corner, at least 0 on
    /// each axis.
    pub fn cursor_screen_pos(&self) -> (r: (usize, usize))
        ensures
            r == (
                sat_sub(self@.cursor.row, self@.viewport.row_offset),
                sat_sub(self@.cursor.col, self@.viewport.col_offset),
            ),
    {
        let row = if self.cursor.row >= self.viewport.row_offset {
            self.cursor.row - self.viewport.row_offset
        } else {
            0
        };
        let col = if self.cursor.col >= self.viewport.col_offset {
            self.cursor.col - self.viewport.col_offset
        } else {
            0
        };
        (row, col)
    }

    /// Gives the document a line if it has none, then moves the cursor onto
    /// the last line and within its line.
    fn clamp_cursor(&mut self)
        ensures
            final(self)@ == clamp_state(old(self)@),
            ready(final(self)@),
    {
        proof {
            lemma_clamp_valid(self@);
        }
        self.buffer.ensure_nonempty();
        let n = self.buffer.line_count();
        if self.cursor.row >= n {
            self.cursor.row = n - 1;
        }
        let max_col = self.buffer.line_len_chars(self.cursor.row);
        if self.cursor.col > max_col {
            self.cursor.col = max_col;
        }
    }

    /// Scrolls each axis of the viewport as little as needed to show the
    /// cursor.
    fn ensure_cursor_visible(&mut self)
        ensures
            final(self)@ == fit_state(old(self)@),
    {
        let row = self.cursor.row;
        let col = self.cursor.col;
        if self.viewport.height == 0 || row < self.viewport.row_offset {
            self.viewport.row_offset = row;
        } else if row - self.viewport.row_offset >= self.viewport.height {
            self.viewport.row_offset = row - (self.viewport.height - 1);
        }
        if self.viewport.width == 0 || col < self.viewport.col_offset {
            self.viewport.col_offset = col;
        } else if col - self.viewport.col_offset >= self.viewport.width {
            self.viewport.col_offset = col - (self.viewport.width - 1);
        }
    }

    fn move_left(&mut self)
        requires
            ready(old(self)@),
        ensures
            final(self)@ == (EditorState { cursor: move_left(old(self)@.lines, old(self)@.cursor), ..old(self)@ }),
    {
        if self.cursor.col > 0 {
            self.cursor.col = self.cursor.col - 1;
            return;
        }
        if self.cursor.row > 0 {
            self.cursor.row = self.cursor.row - 1;
            self.cursor.col = self.buffer.line_len_chars(self.cursor.row);
        }
    }

    fn move_right(&mut self)
        requires
            ready(old(self)@),
        ensures
            final(self)@ == (EditorState { cursor: move_right(old(self)@.lines, old(self)@.cursor), ..old(self)@ }),
    {
        let n = self.buffer.line_count();
        let line_len = self.buffer.line_len_chars(self.cursor.row);
        if self.cursor.col < line_len {
            self.cursor.col = self.cursor.col + 1;
            return;
        }
        if self.cursor.row + 1 < n {
            self.cursor.row = self.cursor.row + 1;
            self.cursor.col = 0;
        }
    }

    fn move_up(&mut self)
        requires
            ready(old(self)@),
        ensures
            final(self)@ == (EditorState { cursor: move_up(old(self)@.lines, old(self)@.cursor), ..old(self)@ }),
    {
        if self.cursor.row == 0 {
            return;
        }
        self.cursor.row = self.cursor.row - 1;
        let line_len = self.buffer.line_len_chars(self.cursor.row);
        if self.cursor.col > line_len {
            self.cursor.col = line_len;
        }
    }

    fn move_down(&mut self)
        requires
            ready(old(self)@),
        ensures
            final(self)@ == (EditorState { cursor: move_down(old(self)@.lines, old(self)@.cursor), ..old(self)@ }),
    {
        let n = self.buffer.line_count();
        if self.cursor.row + 1 >= n {
            return;
        }
        self.cursor.row = self.cursor.row + 1;
        let line_len = self.buffer.line_len_chars(self.cursor.row);
        if self.cursor.col > line_len {
            self.cursor.col = line_len;
        }
    }

    /// Moves to just before the token before the cursor, skipping
    /// whitespace and line breaks.
    fn move_word_left(&mut self)
        requires
            ready(old(self)@),
        ensures
            final(self)@ == (EditorState { cursor: word_left(old(self)@.lines, old(self)@.cursor), ..old(self)@ }),
    {
        if self.cursor.row == 0 && self.cursor.col == 0 {
            return;
        }
        let ghost lines = self@.lines;
        let mut row = self.cursor.row;
        let mut col = self.cursor.col;
        let mut cs = chars_of(self.buffer.line_at(row));
        let ghost target = skip_space_back(lines, row as nat, col as nat);
        loop
            invariant
                lines == self@.lines,
                row < lines.len(),
                cs@ == lines[row as int],
                col <= cs@.len(),
                skip_space_back(lines, row as nat, col as nat) == target,
            ensures
                target == (row as nat, col as nat),
                row < lines.len(),
                cs@ == lines[row as int],
                col <= cs@.len(),
            decreases row, col,
        {
            if col == 0 {
                if row == 0 {
                    break;
                }
                row = row - 1;
                cs = chars_of(self.buffer.line_at(row));
                col = cs.len();
            } else if is_whitespace_char(cs[col - 1]) {
                col = col - 1;
            } else {
                break;
            }
        }
        if col > 0 {
            if word_char(cs[col - 1]) {
                let ghost k = col;
                loop
                    invariant
                        col <= cs@.len(),
                        word_run_start(cs@, col as nat) == word_run_start(cs@, k as nat),
                    ensures
                        col == word_run_start(cs@, k as nat),
                    decreases col,
                {
                    if col == 0 || !word_char(cs[col - 1]) {
                        break;
                    }
                    col = col - 1;
                }
            } else {
                col = col - 1;
            }
        }
        self.cursor = Cursor::new(row, col);
    }

    /// Moves to just after the token after the cursor, skipping whitespace
    /// and line breaks; to the end of the last line where no token follows.
    fn move_word_right(&mut self)
        requires
            ready(old(self)@),
        ensures
            final(self)@ == (EditorState { cursor: word_right(old(self)@.lines, old(self)@.cursor), ..old(self)@ }),
    {
        let ghost lines = self@.lines;
        let n = self.buffer.line_count();
        let mut row = self.cursor.row;
        let mut col = self.cursor.col;
        let mut cs = chars_of(self.buffer.line_at(row));
        let ghost target = skip_space_fwd(lines, row as nat, col as nat);
        loop
            invariant
                lines == self@.lines,
                n == lines.len(),
                row < lines.len(),
                cs@ == lines[row as int],
                col <= cs@.len(),
                skip_space_fwd(lines, row as nat, col as nat) == target,
            ensures
                target == (row as nat, col as nat),
                row < lines.len(),
                cs@ == lines[row as int],
                col <= cs@.len(),
            decreases n - row, cs@.len() - col,
        {
            if col >= cs.len() {
                if row + 1 < n {
                    row = row + 1;
                    cs = chars_of(self.buffer.line_at(row));
                    col = 0;
                } else {
                    break;
                }
            } else if is_whitespace_char(cs[col]) {
                col = col + 1;
            } else {
                break;
            }
        }
        if col < cs.len() {
            if word_char(cs[col]) {
                let ghost k = col;
                loop
                    invariant
                        col <= cs@.len(),
                        word_run_end(cs@, col as nat) == word_run_end(cs@, k as nat),
                    ensures
                        col == word_run_end(cs@, k as nat),
                    decreases cs@.len() - col,
                {
                    if col >= cs.len() || !word_char(cs[col]) {
                        break;
                    }
                    col = col + 1;
                }
            } else {
                col = col + 1;
            }
        } else {
            col = cs.len();
        }
        self.cursor = Cursor::new(row, col);
    }

    /// Puts `ch` at the cursor and moves past it.
    fn insert_char(&mut self, ch: char) -> (m: bool)
        requires
            ready(old(self)@),
        ensures
            ({
                let e = insert_char(old(self)@.lines, old(self)@.cursor, ch);
                &&& final(self)@ == (EditorState { lines: e.lines, cursor: e.cursor, ..old(self)@ })
                &&& m == e.mutated
            }),
    {
        let row = self.cursor.row;
        let col = self.cursor.col;
        let line = self.buffer.line_at(row);
        let line_len = char_count(line);
        if line_len == usize::MAX {
            return false;
        }
        let (left, right) = split_line(line, col);
        let mut s = left.to_owned();
        let c = char_to_string(ch);
        s.append(c.as_str());
        s.append(right);
        self.buffer.set_line(row, s);
        self.cursor.col = col + 1;
        true
    }

    /// Splits the line at the cursor and moves to the start of the new line.
    fn insert_newline(&mut self) -> (m: bool)
        requires
            ready(old(self)@),
        ensures
            ({
                let e = insert_newline(old(self)@.lines, old(self)@.cursor);
                &&& final(self)@ == (EditorState { lines: e.lines, cursor: e.cursor, ..old(self)@ })
                &&& m == e.mutated
            }),
    {
        let row = self.cursor.row;
        let col = self.cursor.col;
        // The line count is a usize, so the new row index fits.
        let _ = self.buffer.line_count();
        let line = self.buffer.line_at(row);
        let (l, r) = split_line(line, col);
        let left = l.to_owned();
        let right = r.to_owned();
        self.buffer.set_line(row, left);
        self.buffer.insert_line(row + 1, right);
        self.cursor = Cursor::new(row + 1, 0);
        true
    }

    /// Removes the character before the cursor, or joins the line onto the
    /// one above at a line start.
    fn delete_backward(&mut self) -> (m: bool)
        requires
            ready(old(self)@),
        ensures
            ({
                let e = delete_backward(old(self)@.lines, old(self)@.cursor);
                &&& final(self)@ == (EditorState { lines: e.lines, cursor: e.cursor, ..old(self)@ })
                &&& m == e.mutated
            }),
    {
        let row = self.cursor.row;
        let col = self.cursor.col;
        if col > 0 {
            let line = self.buffer.line_at(row);
            let (l, _) = split_line(line, col - 1);
            let (_, r) = split_line(line, col);
            let mut s = l.to_owned();
            s.append(r);
            self.buffer.set_line(row, s);
            self.cursor.col = col - 1;
            return true;
        }
        if row > 0 {
            let ghost lines = self@.lines;
            let prev_len = self.buffer.line_len_chars(row - 1);
            let current = self.buffer.remove_line(row);
            let mut prev = self.buffer.line_at(row - 1).to_owned();
            prev.append(current.as_str());
            self.buffer.set_line(row - 1, prev);
            self.cursor = Cursor::new(row - 1, prev_len);
            proof {
                assert(self@.lines =~= lines.update(row - 1, lines[row - 1] + lines[row as int]).remove(
                    row as int,
                ));
            }
            return true;
        }
        false
    }

    /// Removes the character at the cursor, or joins the next line onto this
    /// one at a line end.
    fn delete_forward(&mut self) -> (m: bool)
        requires
            ready(old(self)@),
        ensures
            ({
                let e = delete_forward(old(self)@.lines, old(self)@.cursor);
                &&& final(self)@ == (EditorState { lines: e.lines, cursor: e.cursor, ..old(self)@ })
                &&& m == e.mutated
            }),
    {
        let row = self.cursor.row;
        let col = self.cursor.col;
        let line_len = self.buffer.line_len_chars(row);
        if col < line_len {
            let line = self.buffer.line_at(row);
            let (l, _) = split_line(line, col);
            let (_, r) = split_line(line, col + 1);
            let mut s = l.to_owned();
            s.append(r);
            self.buffer.set_line(row, s);
            return true;
        }
        let n = self.buffer.line_count();
        if row + 1 < n {
            let ghost lines = self@.lines;
            let next = self.buffer.remove_line(row + 1);
            let mut s = self.buffer.line_at(row).to_owned();
            s.append(next.as_str());
            self.buffer.set_line(row, s);
            proof {
                assert(self@.lines =~= lines.update(row as int, lines[row as int] + lines[row + 1]).remove(
                    row + 1,
                ));
            }
            return true;
        }
        false
    }
}

} // verus!
