use minivim::editor::{Buffer, Editor, Mode};

#[test]
fn buffer_from_string_preserves_trailing_line() {
    let buffer = Buffer::from_string("a\nb\n".to_string());
    assert_eq!(buffer.lines, vec!["a", "b", ""]);
}

#[test]
fn insert_newline_splits_line() {
    let mut editor = Editor::new(80, 24, None);
    editor.buffer.lines = vec!["hello".to_string()];
    editor.cursor.row = 0;
    editor.cursor.col = 2;
    editor.insert_newline();
    assert_eq!(editor.buffer.lines, vec!["he", "llo"]);
    assert_eq!(editor.cursor.row, 1);
    assert_eq!(editor.cursor.col, 0);
}

#[test]
fn backspace_merges_lines_at_start() {
    let mut editor = Editor::new(80, 24, None);
    editor.buffer.lines = vec!["hi".to_string(), "there".to_string()];
    editor.cursor.row = 1;
    editor.cursor.col = 0;
    editor.backspace();
    assert_eq!(editor.buffer.lines, vec!["hithere"]);
    assert_eq!(editor.cursor.row, 0);
    assert_eq!(editor.cursor.col, 2);
}

#[test]
fn delete_char_merges_lines_at_end() {
    let mut editor = Editor::new(80, 24, None);
    editor.buffer.lines = vec!["hi".to_string(), "there".to_string()];
    editor.cursor.row = 0;
    editor.cursor.col = 2;
    editor.delete_char();
    assert_eq!(editor.buffer.lines, vec!["hithere"]);
    assert_eq!(editor.cursor.row, 0);
    assert_eq!(editor.cursor.col, 2);
}

#[test]
fn revision_increments_on_edits() {
    let mut editor = Editor::new(80, 24, None);
    assert_eq!(editor.revision, 0);
    editor.insert_char('a');
    let after_insert = editor.revision;
    editor.insert_newline();
    let after_newline = editor.revision;
    editor.backspace();
    let after_backspace = editor.revision;
    assert!(after_insert > 0);
    assert!(after_newline > after_insert);
    assert!(after_backspace > after_newline);
}

#[test]
fn clamp_cursor_trims_column() {
    let mut editor = Editor::new(80, 24, None);
    editor.buffer.lines = vec!["hi".to_string()];
    editor.cursor.row = 0;
    editor.cursor.col = 10;
    editor.clamp_cursor();
    assert_eq!(editor.cursor.col, 2);
}

#[test]
fn clamp_cursor_trims_row() {
    let mut editor = Editor::new(80, 24, None);
    editor.buffer.lines = vec!["one".to_string(), "two".to_string()];
    editor.cursor.row = 9;
    editor.cursor.col = 3;
    editor.clamp_cursor();
    assert_eq!(editor.cursor.row, 1);
    assert_eq!(editor.cursor.col, 0);
}

#[test]
fn round_trip_after_edits() {
    let mut editor = Editor::new(80, 24, None);
    editor.insert_char('h');
    editor.insert_char('i');
    editor.insert_newline();
    editor.insert_char('t');
    editor.insert_char('o');
    editor.backspace();
    let saved = editor.buffer.to_string();
    assert_eq!(saved, "hi\nt");
    let reloaded = Buffer::from_string(saved);
    assert_eq!(reloaded.lines, editor.buffer.lines);
}

#[test]
fn round_trip_keeps_trailing_break() {
    let original = "alpha\nbeta\n";
    let buffer = Buffer::from_string(original.to_string());
    assert_eq!(buffer.to_string(), original);
    let no_trailing = "alpha\nbeta";
    let buffer = Buffer::from_string(no_trailing.to_string());
    assert_eq!(buffer.to_string(), no_trailing);
}

#[test]
fn empty_document_is_one_empty_line() {
    let buffer = Buffer::from_string(String::new());
    assert_eq!(buffer.lines, vec![""]);
    assert_eq!(buffer.to_string(), "");
    let fresh = Buffer::new();
    assert_eq!(fresh.lines, vec![""]);
}

#[test]
fn ensure_cursor_visible_scrolls_down_and_right() {
    let mut editor = Editor::new(10, 5, None);
    // content height is 5 - 1 = 4 rows
    editor.buffer.lines = (0..40).map(|i| format!("line{}", i)).collect();
    editor.cursor.row = 20;
    editor.cursor.col = 0;
    editor.ensure_cursor_visible();
    assert_eq!(editor.viewport.row_offset, 17); // 20 - (4 - 1)
    assert!(editor.viewport.row_offset <= 20);
    assert!(20 < editor.viewport.row_offset + 4);

    editor.buffer.lines = vec!["x".repeat(100)];
    editor.cursor.row = 0;
    editor.cursor.col = 50;
    editor.ensure_cursor_visible();
    assert_eq!(editor.viewport.col_offset, 41); // 50 - (10 - 1)
    assert!(editor.viewport.col_offset <= 50);
    assert!(50 < editor.viewport.col_offset + 10);
}

#[test]
fn ensure_cursor_visible_scrolls_up_and_left() {
    let mut editor = Editor::new(10, 5, None);
    editor.buffer.lines = (0..40).map(|i| format!("line{}", i)).collect();
    editor.viewport.row_offset = 30;
    editor.viewport.col_offset = 7;
    editor.cursor.row = 3;
    editor.cursor.col = 2;
    editor.ensure_cursor_visible();
    assert_eq!(editor.viewport.row_offset, 3);
    assert_eq!(editor.viewport.col_offset, 2);
}

#[test]
fn ensure_cursor_visible_degenerate_extent() {
    let mut editor = Editor::new(0, 1, None);
    // zero content height and zero width: offsets pin to the cursor
    editor.cursor.row = 12;
    editor.cursor.col = 7;
    editor.ensure_cursor_visible();
    assert_eq!(editor.viewport.row_offset, 12);
    assert_eq!(editor.viewport.col_offset, 7);
}

#[test]
fn moves_respect_line_bounds() {
    let mut editor = Editor::new(80, 24, None);
    editor.buffer.lines = vec!["abc".to_string(), "x".to_string()];
    editor.move_right();
    editor.move_right();
    editor.move_right();
    editor.move_right();
    assert_eq!(editor.cursor.col, 3);
    editor.move_down();
    assert_eq!(editor.cursor.row, 1);
    assert_eq!(editor.cursor.col, 1); // clamped to the shorter line
    editor.move_down();
    assert_eq!(editor.cursor.row, 1); // already at the last line
    editor.move_up();
    assert_eq!(editor.cursor.row, 0);
    editor.move_line_end();
    assert_eq!(editor.cursor.col, 3);
    editor.move_line_start();
    assert_eq!(editor.cursor.col, 0);
    editor.move_left();
    assert_eq!(editor.cursor.col, 0); // no-op at the line start
}

#[test]
fn insert_char_appends_line_past_end() {
    let mut editor = Editor::new(80, 24, None);
    editor.buffer.lines = vec!["a".to_string()];
    editor.cursor.row = 1;
    editor.cursor.col = 0;
    editor.insert_char('b');
    assert_eq!(editor.buffer.lines, vec!["a", "b"]);
    assert!(editor.dirty);
}

#[test]
fn backspace_at_buffer_start_is_noop() {
    let mut editor = Editor::new(80, 24, None);
    editor.buffer.lines = vec!["abc".to_string()];
    editor.backspace();
    assert_eq!(editor.buffer.lines, vec!["abc"]);
    assert!(!editor.dirty);
    assert_eq!(editor.revision, 0);
}

#[test]
fn delete_char_at_buffer_end_is_noop() {
    let mut editor = Editor::new(80, 24, None);
    editor.buffer.lines = vec!["abc".to_string()];
    editor.cursor.col = 3;
    editor.delete_char();
    assert_eq!(editor.buffer.lines, vec!["abc"]);
    assert!(!editor.dirty);
}

#[test]
fn multibyte_characters_count_as_one_column() {
    let mut editor = Editor::new(80, 24, None);
    editor.buffer.lines = vec!["héllo".to_string()];
    editor.cursor.row = 0;
    editor.cursor.col = 2;
    editor.insert_char('x');
    assert_eq!(editor.buffer.lines, vec!["héxllo"]);
    assert_eq!(editor.cursor.col, 3);
    // merging after a multibyte line lands the cursor at its character length
    editor.buffer.lines = vec!["é".to_string(), "b".to_string()];
    editor.cursor.row = 1;
    editor.cursor.col = 0;
    editor.backspace();
    assert_eq!(editor.buffer.lines, vec!["éb"]);
    assert_eq!(editor.cursor.col, 1);
}

#[test]
fn take_commands_drains_queue_in_order() {
    let mut editor = Editor::new(80, 24, None);
    editor.push_command("w".to_string());
    editor.push_command("q".to_string());
    let commands = editor.take_commands();
    assert_eq!(commands, vec!["w", "q"]);
    assert!(editor.take_commands().is_empty());
}

#[test]
fn content_height_depends_on_command_line() {
    let mut editor = Editor::new(80, 24, None);
    assert_eq!(editor.content_height(), 23);
    assert_eq!(editor.status_row(), 23);
    assert_eq!(editor.command_row(), 23);
    editor.command_line.active = true;
    assert_eq!(editor.content_height(), 22);
    assert_eq!(editor.status_row(), 22);
    assert_eq!(editor.command_row(), 23);
    editor.screen_height = 1;
    assert_eq!(editor.content_height(), 0);
}
