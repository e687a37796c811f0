use minivim::editor::{Editor, Mode};
use minivim::event::{Event, EventResult, KeyCode, KeyEvent};
use minivim::pipeline::Pipeline;

fn key(code: KeyCode) -> Event {
    Event::Key(KeyEvent { code, ctrl: false, alt: false })
}

fn ctrl_key(code: KeyCode) -> Event {
    Event::Key(KeyEvent { code, ctrl: true, alt: false })
}

#[test]
fn first_consumer_short_circuits_event() {
    // In Normal mode the motion handler consumes `x` (delete under cursor);
    // had the later insert handler seen it, an `x` would have been inserted.
    let pipeline = Pipeline::new();
    let mut editor = Editor::new(80, 24, None);
    editor.buffer.lines = vec!["ab".to_string()];
    let r = pipeline.handle_event(&mut editor, &key(KeyCode::Char('x')));
    assert_eq!(r, EventResult::Consumed);
    assert_eq!(editor.buffer.lines, vec!["b"]);
}

#[test]
fn mode_switch_consumes_before_insert_sees_it() {
    // `i` in Normal mode is consumed by the mode handler: the buffer must
    // not receive an `i` even though the insert handler sits later.
    let pipeline = Pipeline::new();
    let mut editor = Editor::new(80, 24, None);
    let r = pipeline.handle_event(&mut editor, &key(KeyCode::Char('i')));
    assert_eq!(r, EventResult::Consumed);
    assert_eq!(editor.mode, Mode::Insert);
    assert_eq!(editor.buffer.lines, vec![""]);

    // Once in Insert mode, the mode handler ignores `i` and the insert
    // handler types it.
    let r = pipeline.handle_event(&mut editor, &key(KeyCode::Char('i')));
    assert_eq!(r, EventResult::Consumed);
    assert_eq!(editor.buffer.lines, vec!["i"]);
}

#[test]
fn escape_returns_to_normal_and_clears_command_input() {
    let pipeline = Pipeline::new();
    let mut editor = Editor::new(80, 24, None);
    pipeline.handle_event(&mut editor, &key(KeyCode::Char(':')));
    assert_eq!(editor.mode, Mode::Command);
    assert!(editor.command_line.active);
    pipeline.handle_event(&mut editor, &key(KeyCode::Char('w')));
    assert_eq!(editor.command_line.input, "w");
    pipeline.handle_event(&mut editor, &key(KeyCode::Esc));
    assert_eq!(editor.mode, Mode::Normal);
    assert!(!editor.command_line.active);
    assert_eq!(editor.command_line.input, "");
}

#[test]
fn command_line_enter_queues_trimmed_command() {
    let pipeline = Pipeline::new();
    let mut editor = Editor::new(80, 24, None);
    pipeline.handle_event(&mut editor, &key(KeyCode::Char(':')));
    for c in " q!x".chars() {
        pipeline.handle_event(&mut editor, &key(KeyCode::Char(c)));
    }
    pipeline.handle_event(&mut editor, &key(KeyCode::Backspace));
    pipeline.handle_event(&mut editor, &key(KeyCode::Enter));
    assert_eq!(editor.mode, Mode::Normal);
    assert!(!editor.command_line.active);
    assert_eq!(editor.take_commands(), vec!["q!"]);
}

#[test]
fn insert_mode_types_and_tab_is_four_spaces() {
    let pipeline = Pipeline::new();
    let mut editor = Editor::new(80, 24, None);
    pipeline.handle_event(&mut editor, &key(KeyCode::Char('i')));
    pipeline.handle_event(&mut editor, &key(KeyCode::Char('a')));
    pipeline.handle_event(&mut editor, &key(KeyCode::Tab));
    pipeline.handle_event(&mut editor, &key(KeyCode::Char('b')));
    assert_eq!(editor.buffer.lines, vec!["a    b"]);
    assert_eq!(editor.cursor.col, 6);
}

#[test]
fn modified_keys_pass_through_in_insert_mode() {
    let pipeline = Pipeline::new();
    let mut editor = Editor::new(80, 24, None);
    pipeline.handle_event(&mut editor, &key(KeyCode::Char('i')));
    let r = pipeline.handle_event(&mut editor, &ctrl_key(KeyCode::Char('c')));
    assert_eq!(r, EventResult::Ignored);
    assert_eq!(editor.buffer.lines, vec![""]);
}

#[test]
fn motion_keys_move_in_normal_mode_only() {
    let pipeline = Pipeline::new();
    let mut editor = Editor::new(80, 24, None);
    editor.buffer.lines = vec!["abc".to_string(), "def".to_string()];
    pipeline.handle_event(&mut editor, &key(KeyCode::Char('l')));
    pipeline.handle_event(&mut editor, &key(KeyCode::Char('j')));
    assert_eq!((editor.cursor.row, editor.cursor.col), (1, 1));
    pipeline.handle_event(&mut editor, &key(KeyCode::Char('0')));
    assert_eq!(editor.cursor.col, 0);
    pipeline.handle_event(&mut editor, &key(KeyCode::Char('$')));
    assert_eq!(editor.cursor.col, 3);
    pipeline.handle_event(&mut editor, &key(KeyCode::Char('k')));
    assert_eq!(editor.cursor.row, 0);
    pipeline.handle_event(&mut editor, &key(KeyCode::Left));
    assert_eq!(editor.cursor.col, 2);
}

#[test]
fn resize_updates_geometry_without_consuming() {
    let pipeline = Pipeline::new();
    let mut editor = Editor::new(80, 24, None);
    let r = pipeline.process_event(&mut editor, &Event::Resize(100, 40));
    assert_eq!(r, EventResult::Ignored);
    assert_eq!(editor.screen_width, 100);
    assert_eq!(editor.screen_height, 40);
}

#[test]
fn command_dispatch_through_pipeline() {
    let pipeline = Pipeline::new();
    let mut editor = Editor::new(80, 24, None);
    editor.dirty = true;
    let r = pipeline.handle_command(&mut editor, &"q".to_string());
    assert_eq!(r, EventResult::Consumed);
    assert!(!editor.should_quit);
    let r = pipeline.handle_command(&mut editor, &"q!".to_string());
    assert_eq!(r, EventResult::Consumed);
    assert!(editor.should_quit);
}

#[test]
fn init_applies_load_outcome() {
    let pipeline = Pipeline::new();
    let mut editor = Editor::new(80, 24, Some("notes.md".to_string()));
    pipeline.init(&mut editor, minivim::plugins::LoadOutcome::Read("x\ny".to_string()));
    assert_eq!(editor.buffer.lines, vec!["x", "y"]);
    assert_eq!(editor.status, "Opened notes.md");
}
