use minivim::editor::Editor;
use minivim::event::EventResult;
use minivim::plugins::{FileCommandPlugin, LoadOutcome};

const QUIT_WARNING: &str = "No write since last change (add ! to override)";

#[test]
fn quit_refused_while_dirty() {
    let mut editor = Editor::new(80, 24, None);
    editor.dirty = true;
    let plugin = FileCommandPlugin;
    let r = plugin.on_command(&mut editor, &"q".to_string());
    assert_eq!(r, EventResult::Consumed);
    assert!(!editor.should_quit);
    assert_eq!(editor.status, QUIT_WARNING);
}

#[test]
fn forced_quit_ignores_dirty() {
    let mut editor = Editor::new(80, 24, None);
    editor.dirty = true;
    let plugin = FileCommandPlugin;
    let r = plugin.on_command(&mut editor, &"q!".to_string());
    assert_eq!(r, EventResult::Consumed);
    assert!(editor.should_quit);
}

#[test]
fn quit_clean_buffer_quits() {
    let mut editor = Editor::new(80, 24, None);
    let plugin = FileCommandPlugin;
    plugin.on_command(&mut editor, &"q".to_string());
    assert!(editor.should_quit);
}

#[test]
fn write_without_file_name_reports() {
    let mut editor = Editor::new(80, 24, None);
    let plugin = FileCommandPlugin;
    let r = plugin.on_command(&mut editor, &"w".to_string());
    assert_eq!(r, EventResult::Consumed);
    assert_eq!(editor.status, "No file name");
    assert!(editor.take_pending_save().is_none());
}

#[test]
fn write_queues_save_and_finish_updates_identity() {
    let mut editor = Editor::new(80, 24, None);
    editor.dirty = true;
    let plugin = FileCommandPlugin;
    plugin.on_command(&mut editor, &"w note.txt".to_string());
    let req = editor.take_pending_save().expect("a save request");
    assert_eq!(req.path, "note.txt");
    assert!(!req.quit_after);
    FileCommandPlugin::finish_save(&mut editor, req, None);
    assert!(!editor.dirty);
    assert_eq!(editor.file_path.as_deref(), Some("note.txt"));
    assert_eq!(editor.status, "Wrote note.txt");
    assert!(!editor.should_quit);
}

#[test]
fn write_uses_current_identity_when_no_argument() {
    let mut editor = Editor::new(80, 24, Some("doc.txt".to_string()));
    let plugin = FileCommandPlugin;
    plugin.on_command(&mut editor, &"w".to_string());
    let req = editor.take_pending_save().expect("a save request");
    assert_eq!(req.path, "doc.txt");
}

#[test]
fn write_quit_only_quits_on_success() {
    let mut editor = Editor::new(80, 24, Some("doc.txt".to_string()));
    editor.dirty = true;
    let plugin = FileCommandPlugin;
    plugin.on_command(&mut editor, &"wq".to_string());
    let req = editor.take_pending_save().expect("a save request");
    assert!(req.quit_after);
    FileCommandPlugin::finish_save(&mut editor, req, Some("disk full".to_string()));
    assert!(!editor.should_quit);
    assert!(editor.dirty);
    assert_eq!(editor.status, "Write failed: disk full");
    assert_eq!(editor.file_path.as_deref(), Some("doc.txt"));

    plugin.on_command(&mut editor, &"x other.txt".to_string());
    let req = editor.take_pending_save().expect("a save request");
    assert_eq!(req.path, "other.txt");
    assert!(req.quit_after);
    FileCommandPlugin::finish_save(&mut editor, req, None);
    assert!(editor.should_quit);
    assert!(!editor.dirty);
    assert_eq!(editor.file_path.as_deref(), Some("other.txt"));
}

#[test]
fn empty_and_unknown_commands_are_consumed_without_effect() {
    let mut editor = Editor::new(80, 24, None);
    let plugin = FileCommandPlugin;
    assert_eq!(plugin.on_command(&mut editor, &"   ".to_string()), EventResult::Consumed);
    assert_eq!(plugin.on_command(&mut editor, &"frobnicate".to_string()), EventResult::Consumed);
    assert!(!editor.should_quit);
    assert_eq!(editor.status, "");
    assert!(editor.take_pending_save().is_none());
}

#[test]
fn command_tokens_ignore_extra_blanks() {
    let mut editor = Editor::new(80, 24, None);
    let plugin = FileCommandPlugin;
    plugin.on_command(&mut editor, &"  w \t two.txt  extra".to_string());
    let req = editor.take_pending_save().expect("a save request");
    assert_eq!(req.path, "two.txt");
}

#[test]
fn load_outcomes_update_editor() {
    let plugin = FileCommandPlugin;

    let mut editor = Editor::new(80, 24, Some("a.txt".to_string()));
    editor.dirty = true;
    plugin.finish_load(&mut editor, LoadOutcome::Read("one\ntwo".to_string()));
    assert_eq!(editor.buffer.lines, vec!["one", "two"]);
    assert!(!editor.dirty);
    assert_eq!(editor.revision, 0);
    assert_eq!(editor.status, "Opened a.txt");

    let mut editor = Editor::new(80, 24, Some("b.txt".to_string()));
    plugin.finish_load(&mut editor, LoadOutcome::NotFound);
    assert_eq!(editor.buffer.lines, vec![""]);
    assert_eq!(editor.status, "New file b.txt");

    let mut editor = Editor::new(80, 24, Some("c.txt".to_string()));
    plugin.finish_load(&mut editor, LoadOutcome::Failed("permission denied".to_string()));
    assert_eq!(editor.status, "Open failed: permission denied");

    let mut editor = Editor::new(80, 24, None);
    plugin.finish_load(&mut editor, LoadOutcome::NoPath);
    assert_eq!(editor.status, "");
}
