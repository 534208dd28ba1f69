//! Properties that hold across calls of the editor.
use vstd::prelude::*;

use crate::model::{
    action_edit, apply_all, apply_state, clamp_state, is_movement, lemma_clamp_valid,
    lemma_fit_keeps, skip_space_back, skip_space_fwd, state_inv, step_state, word_left, word_right,
    word_run_end, word_run_start, EditorState,
};
use crate::text::{is_space, is_word_char};
use crate::types::{Action, Cursor};

verus! {

/// After any call of `apply`, the document has a line, the cursor lies on a
/// line and within it, and the viewport shows the cursor.
pub proof fn lemma_apply_keeps_inv(s: EditorState, a: Action)
    ensures
        state_inv(apply_state(s, a)),
{
    lemma_clamp_valid(s);
    lemma_clamp_valid(step_state(clamp_state(s), a));
}

/// After any sequence of actions on an editor, the same holds.
pub proof fn lemma_apply_all_keeps_inv(s: EditorState, actions: Seq<Action>)
    requires
        state_inv(s),
    ensures
        state_inv(apply_all(s, actions)),
    decreases actions.len(),
{
    if actions.len() > 0 {
        lemma_apply_keeps_inv(s, actions[0]);
        lemma_apply_all_keeps_inv(apply_state(s, actions[0]), actions.drop_first());
    }
}

/// Moving left at the document start, or right at the end of the last
/// line, leaves the whole editor as it was.
pub proof fn lemma_edge_moves_are_no_ops(s: EditorState)
    requires
        state_inv(s),
    ensures
        s.cursor == (Cursor { row: 0, col: 0 }) ==> apply_state(s, Action::MoveLeft) == s,
        s.cursor.row + 1 == s.lines.len() && s.cursor.col == s.lines[s.cursor.row as int].len()
            ==> apply_state(s, Action::MoveRight) == s,
{
    lemma_clamp_valid(s);
    lemma_fit_keeps(s.cursor, s.viewport);
}

/// Every character of `line` from `c` up to the end of the identifier run
/// starting at `c` belongs to the run, and the run ends within the line.
proof fn lemma_run_end(line: Seq<char>, c: nat)
    requires
        c <= line.len(),
    ensures
        c <= word_run_end(line, c) <= line.len(),
        forall|i: int| c <= i < word_run_end(line, c) ==> is_word_char(#[trigger] line[i]),
    decreases line.len() - c,
{
    if c < line.len() && is_word_char(line[c as int]) {
        lemma_run_end(line, c + 1);
    }
}

/// Going back over an identifier run that covers `[c, e)` reaches `c` or
/// an earlier position.
proof fn lemma_run_start(line: Seq<char>, c: nat, e: nat)
    requires
        c <= e <= line.len(),
        forall|i: int| c <= i < e ==> is_word_char(#[trigger] line[i]),
    ensures
        word_run_start(line, e) <= c,
    decreases e,
{
    if e > c {
        lemma_run_start(line, c, (e - 1) as nat);
    } else {
        lemma_run_start_le(line, e);
    }
}

proof fn lemma_run_start_le(line: Seq<char>, e: nat)
    ensures
        word_run_start(line, e) <= e,
    decreases e,
{
    if e > 0 && is_word_char(line[e - 1]) {
        lemma_run_start_le(line, (e - 1) as nat);
    }
}

/// From a cursor on a character that is not whitespace, a word move right
/// followed by a word move left comes back to the same line, at the
/// cursor's column or before it.
pub proof fn lemma_word_right_then_left(s: EditorState)
    requires
        state_inv(s),
        s.cursor.col < s.lines[s.cursor.row as int].len(),
        !is_space(s.lines[s.cursor.row as int][s.cursor.col as int]),
        s.lines[s.cursor.row as int].len() <= usize::MAX,
    ensures
        ({
            let t = apply_state(apply_state(s, Action::MoveWordRight), Action::MoveWordLeft);
            t.cursor.row == s.cursor.row && t.cursor.col <= s.cursor.col
        }),
{
    let lines = s.lines;
    let c = s.cursor;
    let line = lines[c.row as int];
    lemma_clamp_valid(s);
    assert(skip_space_fwd(lines, c.row as nat, c.col as nat) == (c.row as nat, c.col as nat));
    let q = word_right(lines, c);
    let e: nat = if is_word_char(line[c.col as int]) {
        word_run_end(line, c.col as nat)
    } else {
        (c.col + 1) as nat
    };
    lemma_run_end(line, c.col as nat);
    assert(q == Cursor { row: c.row, col: e as usize });
    let s1 = apply_state(s, Action::MoveWordRight);
    assert(s1.lines == lines);
    assert(s1.cursor == q);
    lemma_clamp_valid(s1);
    if is_word_char(line[c.col as int]) {
        lemma_run_end(line, (c.col + 1) as nat);
        assert(e >= c.col + 1);
        assert(is_word_char(line[e - 1]));
    }
    assert(!is_space(line[e - 1]));
    assert(skip_space_back(lines, c.row as nat, e) == (c.row as nat, e));
    if is_word_char(line[c.col as int]) {
        lemma_run_start(line, c.col as nat, e);
        assert(word_left(lines, q).col <= c.col);
    } else {
        assert(word_left(lines, q).col == c.col);
    }
}

/// The effect of an action changes the lines exactly when it reports a
/// change, on any editor.
proof fn lemma_edit_mutates(s: EditorState, a: Action)
    requires
        state_inv(s),
    ensures
        action_edit(s.lines, s.cursor, a).mutated <==> action_edit(s.lines, s.cursor, a).lines
            != s.lines,
        action_edit(s.lines, s.cursor, a).lines.len() > 0,
{
    let lines = s.lines;
    let c = s.cursor;
    let e = action_edit(lines, c, a);
    let row = c.row as int;
    let line = lines[row];
    if e.mutated {
        match a {
            Action::Insert(ch) => {
                if ch == '\n' {
                    assert(e.lines.len() == lines.len() + 1);
                } else {
                    assert(e.lines[row].len() == line.len() + 1);
                }
            },
            Action::Newline => {
                assert(e.lines.len() == lines.len() + 1);
            },
            Action::DeleteBackward => {
                if c.col > 0 {
                    assert(e.lines[row].len() + 1 == line.len());
                } else {
                    assert(e.lines.len() + 1 == lines.len());
                }
            },
            Action::DeleteForward => {
                if c.col < line.len() {
                    assert(e.lines[row].len() + 1 == line.len());
                } else {
                    assert(e.lines.len() + 1 == lines.len());
                }
            },
            _ => {},
        }
    }
}

/// On any editor, `apply` leaves the dirty flag set exactly when it was
/// set or the content changed; a movement changes neither.
pub proof fn lemma_dirty_tracks_content(s: EditorState, a: Action)
    requires
        state_inv(s),
    ensures
        apply_state(s, a).dirty == (s.dirty || apply_state(s, a).lines != s.lines),
        is_movement(a) ==> apply_state(s, a).dirty == s.dirty && apply_state(s, a).lines
            == s.lines,
{
    lemma_clamp_valid(s);
    lemma_edit_mutates(s, a);
}

/// A sequence of movements changes neither the content nor the dirty flag.
pub proof fn lemma_movements_keep_clean(s: EditorState, actions: Seq<Action>)
    requires
        state_inv(s),
        forall|i: int| 0 <= i < actions.len() ==> is_movement(#[trigger] actions[i]),
    ensures
        apply_all(s, actions).dirty == s.dirty,
        apply_all(s, actions).lines == s.lines,
    decreases actions.len(),
{
    if actions.len() > 0 {
        lemma_dirty_tracks_content(s, actions[0]);
        lemma_apply_keeps_inv(s, actions[0]);
        let rest = actions.drop_first();
        assert forall|i: int| 0 <= i < rest.len() implies is_movement(#[trigger] rest[i]) by {
            assert(rest[i] == actions[i + 1]);
        }
        lemma_movements_keep_clean(apply_state(s, actions[0]), rest);
    }
}

} // verus!
