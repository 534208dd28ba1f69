use edit_core::{char_to_byte_index, slice_line, Action, Buffer, Cursor, Editor, Viewport};

fn editor_on(text: &str, height: usize, width: usize) -> Editor {
    Editor::new(Buffer::from_text(text), Viewport::new(height, width))
}

fn lines_of(editor: &Editor) -> Vec<String> {
    let buffer = editor.buffer();
    (0..buffer.line_count())
        .map(|row| buffer.line(row).unwrap().to_string())
        .collect()
}

fn assert_valid_and_visible(editor: &Editor) {
    let cursor = editor.cursor();
    let buffer = editor.buffer();
    assert!(cursor.row < buffer.line_count());
    assert!(cursor.col <= buffer.line(cursor.row).unwrap().chars().count());
    let viewport = editor.viewport();
    if viewport.height > 0 {
        assert!(viewport.row_offset <= cursor.row);
        assert!(cursor.row < viewport.row_offset + viewport.height);
    }
    if viewport.width > 0 {
        assert!(viewport.col_offset <= cursor.col);
        assert!(cursor.col < viewport.col_offset + viewport.width);
    }
}

#[test]
fn round_trip_of_several_texts() {
    for text in ["", "a", "a\nb", "x\n", "\n\n", "h\u{e9}llo\n\u{20ac}\n\nend"] {
        assert_eq!(Buffer::from_text(text).as_text(), text);
    }
}

#[test]
fn from_text_splits_on_newlines() {
    let buffer = Buffer::from_text("\nab\n");
    assert_eq!(buffer.line_count(), 3);
    assert_eq!(buffer.line(0), Some(""));
    assert_eq!(buffer.line(1), Some("ab"));
    assert_eq!(buffer.line(2), Some(""));
    assert_eq!(buffer.line(3), None);
}

#[test]
fn new_and_default_buffers_hold_one_empty_line() {
    let buffer = Buffer::new();
    assert_eq!(buffer.line_count(), 1);
    assert_eq!(buffer.line(0), Some(""));
    assert_eq!(buffer.as_text(), "");
    let other = Buffer::default();
    assert_eq!(other.line_count(), 1);
    assert_eq!(other.as_text(), "");
}

#[test]
fn char_to_byte_index_counts_utf8_widths() {
    let text = "a\u{20ac}\u{e9}\u{1f600}";
    assert_eq!(char_to_byte_index(text, 0), 0);
    assert_eq!(char_to_byte_index(text, 1), 1);
    assert_eq!(char_to_byte_index(text, 2), 4);
    assert_eq!(char_to_byte_index(text, 3), 6);
    assert_eq!(char_to_byte_index(text, 4), 10);
    assert_eq!(char_to_byte_index(text, 99), 10);
    assert_eq!(char_to_byte_index("", 3), 0);
}

#[test]
fn slice_line_cuts_by_characters() {
    let text = "a\u{20ac}\u{e9}xyz";
    assert_eq!(slice_line(text, 1, 2), "\u{20ac}\u{e9}");
    assert_eq!(slice_line(text, 0, 0), "");
    assert_eq!(slice_line(text, 4, 10), "yz");
    assert_eq!(slice_line(text, 6, 3), "");
    assert_eq!(slice_line(text, 9, 3), "");
    assert_eq!(slice_line(text, usize::MAX, usize::MAX), "");
    assert_eq!(slice_line(text, 2, usize::MAX), "\u{e9}xyz");
}

#[test]
fn cursor_stays_valid_and_visible_over_a_session() {
    let mut editor = editor_on("first line\n\tsecond\n\nlast", 2, 4);
    let actions = [
        Action::MoveDown,
        Action::MoveDown,
        Action::MoveRight,
        Action::MoveDown,
        Action::MoveWordRight,
        Action::MoveWordRight,
        Action::Insert('z'),
        Action::MoveUp,
        Action::MoveUp,
        Action::MoveWordLeft,
        Action::DeleteBackward,
        Action::Newline,
        Action::DeleteForward,
        Action::MoveLeft,
        Action::Insert('\n'),
        Action::MoveWordRight,
        Action::MoveWordRight,
        Action::MoveWordRight,
        Action::MoveWordRight,
    ];
    for action in actions {
        editor.apply(action);
        assert_valid_and_visible(&editor);
    }
}

#[test]
fn move_left_at_start_and_right_at_end_change_nothing() {
    let mut editor = editor_on("ab\ncd", 1, 1);
    let before_cursor = editor.cursor();
    let before_viewport = editor.viewport();
    editor.apply(Action::MoveLeft);
    assert_eq!(editor.cursor(), before_cursor);
    assert_eq!(editor.viewport(), before_viewport);
    assert!(!editor.is_dirty());
    assert_eq!(editor.buffer().as_text(), "ab\ncd");

    for _ in 0..5 {
        editor.apply(Action::MoveRight);
    }
    assert_eq!(editor.cursor(), Cursor::new(1, 2));
    let viewport = editor.viewport();
    editor.apply(Action::MoveRight);
    assert_eq!(editor.cursor(), Cursor::new(1, 2));
    assert_eq!(editor.viewport(), viewport);
    assert!(!editor.is_dirty());
}

#[test]
fn deleting_after_multibyte_characters_works_in_characters() {
    let mut editor = editor_on("a\u{20ac}\u{e9}", 1, 10);
    for _ in 0..3 {
        editor.apply(Action::MoveRight);
    }
    assert_eq!(editor.cursor(), Cursor::new(0, 3));
    editor.apply(Action::DeleteBackward);
    assert_eq!(editor.buffer().as_text(), "a\u{20ac}");
    editor.apply(Action::Insert('\u{e9}'));
    editor.apply(Action::MoveLeft);
    editor.apply(Action::MoveLeft);
    editor.apply(Action::DeleteForward);
    assert_eq!(editor.buffer().as_text(), "a\u{e9}");
    assert_eq!(editor.cursor(), Cursor::new(0, 1));
}

#[test]
fn word_right_then_left_does_not_pass_the_start() {
    let mut editor = editor_on("foo bar(x)", 1, 20);
    editor.apply(Action::MoveRight);
    editor.apply(Action::MoveWordRight);
    assert_eq!(editor.cursor(), Cursor::new(0, 3));
    editor.apply(Action::MoveWordLeft);
    assert_eq!(editor.cursor(), Cursor::new(0, 0));

    for _ in 0..7 {
        editor.apply(Action::MoveRight);
    }
    assert_eq!(editor.cursor(), Cursor::new(0, 7));
    editor.apply(Action::MoveWordRight);
    assert_eq!(editor.cursor(), Cursor::new(0, 8));
    editor.apply(Action::MoveWordLeft);
    assert_eq!(editor.cursor(), Cursor::new(0, 7));
}

#[test]
fn insert_newline_then_delete_joins_back() {
    let mut editor = editor_on("hi", 5, 10);
    editor.apply(Action::MoveRight);
    editor.apply(Action::MoveRight);
    editor.apply(Action::Insert('!'));
    assert_eq!(editor.buffer().as_text(), "hi!");
    editor.apply(Action::Newline);
    assert_eq!(lines_of(&editor), vec!["hi!".to_string(), String::new()]);
    assert_eq!(editor.cursor(), Cursor::new(1, 0));
    editor.apply(Action::Insert('a'));
    assert_eq!(editor.buffer().as_text(), "hi!\na");
    editor.apply(Action::DeleteBackward);
    editor.apply(Action::DeleteBackward);
    assert_eq!(editor.buffer().as_text(), "hi!");
    assert_eq!(editor.cursor(), Cursor::new(0, 3));
}

#[test]
fn insert_of_newline_char_splits_the_line() {
    let mut editor = editor_on("abcd", 5, 10);
    editor.apply(Action::MoveRight);
    editor.apply(Action::Insert('\n'));
    assert_eq!(lines_of(&editor), vec!["a".to_string(), "bcd".to_string()]);
    assert_eq!(editor.cursor(), Cursor::new(1, 0));
    assert!(editor.is_dirty());
}

#[test]
fn moving_right_wraps_and_delete_forward_joins() {
    let mut editor = editor_on("ab\ncd", 5, 10);
    for _ in 0..3 {
        editor.apply(Action::MoveRight);
    }
    assert_eq!(editor.cursor(), Cursor::new(1, 0));
    editor.apply(Action::MoveLeft);
    assert_eq!(editor.cursor(), Cursor::new(0, 2));
    editor.apply(Action::DeleteForward);
    assert_eq!(editor.buffer().as_text(), "abcd");
    assert_eq!(editor.cursor(), Cursor::new(0, 2));
}

#[test]
fn word_right_lands_after_each_token() {
    let mut editor = editor_on("foo(); bar", 1, 20);
    let mut cols = Vec::new();
    for _ in 0..5 {
        editor.apply(Action::MoveWordRight);
        cols.push(editor.cursor().col);
    }
    assert_eq!(cols, vec![3, 4, 5, 6, 10]);
    editor.apply(Action::MoveWordRight);
    assert_eq!(editor.cursor(), Cursor::new(0, 10));
}

#[test]
fn horizontal_scroll_shows_the_cursor() {
    let mut editor = editor_on("abcdef", 1, 3);
    for _ in 0..4 {
        editor.apply(Action::MoveRight);
    }
    assert_eq!(editor.viewport().col_offset, 2);
    assert_eq!(editor.cursor_screen_pos(), (0, 2));
    assert_eq!(editor.visible_lines(), vec!["cde".to_string()]);
}

#[test]
fn dirty_flag_follows_content_changes_only() {
    let mut editor = editor_on("ab\ncd", 2, 2);
    for action in [
        Action::MoveRight,
        Action::MoveDown,
        Action::MoveWordLeft,
        Action::MoveWordRight,
        Action::MoveUp,
        Action::MoveLeft,
    ] {
        editor.apply(action);
        assert!(!editor.is_dirty());
    }
    editor.apply(Action::MoveLeft);
    editor.apply(Action::MoveLeft);
    editor.apply(Action::DeleteBackward);
    assert_eq!(editor.cursor(), Cursor::new(0, 0));
    assert!(!editor.is_dirty());
    editor.apply(Action::DeleteForward);
    assert!(editor.is_dirty());
    assert_eq!(editor.buffer().as_text(), "b\ncd");
    editor.reset_dirty();
    assert!(!editor.is_dirty());
    editor.apply(Action::MoveDown);
    assert!(!editor.is_dirty());
}

#[test]
fn delete_forward_at_document_end_is_a_no_op() {
    let mut editor = editor_on("ab", 1, 5);
    editor.apply(Action::MoveRight);
    editor.apply(Action::MoveRight);
    editor.apply(Action::DeleteForward);
    assert_eq!(editor.buffer().as_text(), "ab");
    assert!(!editor.is_dirty());
}

#[test]
fn up_and_down_clamp_the_column() {
    let mut editor = editor_on("long line\nab\nlonger line", 5, 20);
    for _ in 0..6 {
        editor.apply(Action::MoveRight);
    }
    editor.apply(Action::MoveDown);
    assert_eq!(editor.cursor(), Cursor::new(1, 2));
    editor.apply(Action::MoveDown);
    assert_eq!(editor.cursor(), Cursor::new(2, 2));
    editor.apply(Action::MoveDown);
    assert_eq!(editor.cursor(), Cursor::new(2, 2));
    editor.apply(Action::MoveUp);
    editor.apply(Action::MoveUp);
    editor.apply(Action::MoveUp);
    assert_eq!(editor.cursor(), Cursor::new(0, 2));
}

#[test]
fn word_motion_skips_blank_lines_and_unicode_space() {
    let mut editor = editor_on("x\n \t\n\u{a0}\u{3000}y", 3, 20);
    editor.apply(Action::MoveRight);
    editor.apply(Action::MoveWordRight);
    assert_eq!(editor.cursor(), Cursor::new(2, 3));
    editor.apply(Action::MoveWordLeft);
    assert_eq!(editor.cursor(), Cursor::new(2, 2));
    editor.apply(Action::MoveWordLeft);
    assert_eq!(editor.cursor(), Cursor::new(0, 0));
}

#[test]
fn word_motion_treats_unicode_letters_as_one_run() {
    let mut editor = editor_on("h\u{e9}llo_w\u{f6}rld2 \u{3b1}\u{3b2}", 1, 30);
    editor.apply(Action::MoveWordRight);
    assert_eq!(editor.cursor(), Cursor::new(0, 12));
    editor.apply(Action::MoveWordRight);
    assert_eq!(editor.cursor(), Cursor::new(0, 15));
    editor.apply(Action::MoveWordLeft);
    assert_eq!(editor.cursor(), Cursor::new(0, 13));
}

#[test]
fn word_motion_on_empty_buffer_stays_put() {
    let mut editor = editor_on("", 1, 1);
    editor.apply(Action::MoveWordRight);
    assert_eq!(editor.cursor(), Cursor::new(0, 0));
    editor.apply(Action::MoveWordLeft);
    assert_eq!(editor.cursor(), Cursor::new(0, 0));
}

#[test]
fn visible_lines_respect_the_window() {
    let mut editor = editor_on("one\ntwo\nthree", 0, 3);
    assert!(editor.visible_lines().is_empty());
    editor.set_viewport(Viewport::new(5, 2));
    assert_eq!(
        editor.visible_lines(),
        vec!["on".to_string(), "tw".to_string(), "th".to_string()]
    );
    editor.set_viewport(Viewport::new(2, 0));
    assert_eq!(editor.visible_lines(), vec![String::new(), String::new()]);
    editor.apply(Action::MoveDown);
    editor.apply(Action::MoveDown);
    editor.set_viewport(Viewport::new(2, 10));
    assert_eq!(editor.viewport().row_offset, 1);
    assert_eq!(
        editor.visible_lines(),
        vec!["two".to_string(), "three".to_string()]
    );
    assert_eq!(editor.cursor_screen_pos(), (1, 0));
}

#[test]
fn set_viewport_scrolls_minimally() {
    let mut editor = editor_on("a\nb\nc\nd\ne", 2, 5);
    for _ in 0..4 {
        editor.apply(Action::MoveDown);
    }
    assert_eq!(editor.viewport().row_offset, 3);
    let mut moved = Viewport::new(2, 5);
    moved.row_offset = 4;
    editor.set_viewport(moved);
    assert_eq!(editor.viewport().row_offset, 4);
    editor.apply(Action::MoveUp);
    assert_eq!(editor.viewport().row_offset, 3);
    assert_eq!(editor.cursor_screen_pos(), (0, 0));
}
