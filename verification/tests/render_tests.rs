use minivim::editor::{Editor, Mode};
use minivim::event::{Event, KeyCode, KeyEvent};
use minivim::pipeline::Pipeline;
use minivim::render::{
    format_status_line, slice_line, BufferRenderPlugin, CommandLineRenderPlugin,
    CursorRenderPlugin, RenderContext, StatusBarPlugin,
};

#[test]
fn status_line_right_text_wins_when_wide() {
    let left = "NORMAL file.txt".to_string();
    let right = "a long status message".to_string();
    let line = format_status_line(&left, &right, 10);
    assert_eq!(line, "a long sta");
    assert_eq!(line.chars().count(), 10);
}

#[test]
fn status_line_pads_to_exact_width() {
    let left = "NORMAL".to_string();
    let right = "Ln 1, Col 1".to_string();
    let line = format_status_line(&left, &right, 24);
    assert_eq!(line.chars().count(), 24);
    assert_eq!(line, "NORMAL       Ln 1, Col 1");
    assert!(line.starts_with("NORMAL"));
    assert!(line.ends_with("Ln 1, Col 1"));
}

#[test]
fn status_line_truncates_left_text() {
    let left = "NORMAL averyveryverylongname.txt".to_string();
    let right = "Ln 1, Col 1".to_string();
    let line = format_status_line(&left, &right, 20);
    assert_eq!(line.chars().count(), 20);
    // 20 - 11 - 1 = 8 columns remain for the left text
    assert_eq!(line, "NORMAL a Ln 1, Col 1");
}

#[test]
fn status_line_zero_width_is_empty() {
    assert_eq!(format_status_line(&"a".to_string(), &"b".to_string(), 0), "");
}

#[test]
fn slice_line_windows_by_characters() {
    let line = "abcdefgh".to_string();
    assert_eq!(slice_line(&line, 2, 3), "cde");
    assert_eq!(slice_line(&line, 6, 5), "gh");
    assert_eq!(slice_line(&line, 9, 5), "");
    assert_eq!(slice_line(&line, 0, 0), "");
}

#[test]
fn render_context_truncates_and_ignores_out_of_range() {
    let mut ctx = RenderContext::new(4, 2);
    assert_eq!(ctx.lines, vec!["", ""]);
    ctx.set_line(0, "abcdef".to_string());
    assert_eq!(ctx.lines[0], "abcd");
    ctx.set_line(5, "zzz".to_string());
    assert_eq!(ctx.lines, vec!["abcd", ""]);
    ctx.set_cursor(1, 2);
    assert_eq!(ctx.cursor, Some((1, 2)));
}

#[test]
fn buffer_render_fills_viewport_and_tilde_rows() {
    let plugin = BufferRenderPlugin;
    let mut editor = Editor::new(6, 4, None);
    editor.buffer.lines = vec!["alpha".to_string(), "beta".to_string()];
    let mut ctx = RenderContext::new(6, 4);
    plugin.on_render(&editor, &mut ctx);
    // content height 3: two buffer rows then a tilde row; the status row stays
    assert_eq!(ctx.lines, vec!["alpha", "beta", "~", ""]);
}

#[test]
fn buffer_render_applies_scroll() {
    let plugin = BufferRenderPlugin;
    let mut editor = Editor::new(3, 3, None);
    editor.buffer.lines = vec!["one".to_string(), "twolong".to_string(), "three".to_string()];
    editor.viewport.row_offset = 1;
    editor.viewport.col_offset = 3;
    let mut ctx = RenderContext::new(3, 3);
    plugin.on_render(&editor, &mut ctx);
    assert_eq!(ctx.lines, vec!["lon", "ee", ""]);
}

#[test]
fn status_bar_writes_mode_name_and_position() {
    let plugin = StatusBarPlugin;
    let mut editor = Editor::new(30, 3, None);
    editor.buffer.lines = vec!["ab".to_string()];
    editor.cursor.col = 2;
    let mut ctx = RenderContext::new(30, 3);
    plugin.on_render(&editor, &mut ctx);
    let line = &ctx.lines[2];
    assert_eq!(line.chars().count(), 30);
    assert!(line.starts_with("NORMAL [No Name]"));
    assert!(line.ends_with("Ln 1, Col 3"));
}

#[test]
fn status_bar_renders_multi_digit_position() {
    let plugin = StatusBarPlugin;
    let mut editor = Editor::new(40, 30, None);
    editor.buffer.lines = (0..200).map(|i| format!("row {}", i)).collect();
    editor.cursor.row = 123;
    editor.cursor.col = 9;
    let mut ctx = RenderContext::new(40, 30);
    plugin.on_render(&editor, &mut ctx);
    assert!(ctx.lines[29].ends_with("Ln 124, Col 10"));
}

#[test]
fn status_bar_shows_dirty_marker_and_message() {
    let plugin = StatusBarPlugin;
    let mut editor = Editor::new(40, 2, Some("f.txt".to_string()));
    editor.dirty = true;
    editor.mode = Mode::Insert;
    editor.status = "hello".to_string();
    let mut ctx = RenderContext::new(40, 2);
    plugin.on_render(&editor, &mut ctx);
    let line = &ctx.lines[1];
    assert!(line.starts_with("INSERT f.txt [+]"));
    assert!(line.ends_with("hello"));
}

#[test]
fn command_line_render_shows_prompt_only_when_active() {
    let plugin = CommandLineRenderPlugin;
    let mut editor = Editor::new(20, 3, None);
    editor.command_line.input = "wq".to_string();
    let mut ctx = RenderContext::new(20, 3);
    plugin.on_render(&editor, &mut ctx);
    assert_eq!(ctx.lines[2], "");
    editor.command_line.active = true;
    plugin.on_render(&editor, &mut ctx);
    assert_eq!(ctx.lines[2], ":wq");
}

#[test]
fn cursor_render_places_viewport_relative_cursor() {
    let plugin = CursorRenderPlugin;
    let mut editor = Editor::new(10, 5, None);
    editor.buffer.lines = vec!["x".repeat(30); 30];
    editor.cursor.row = 7;
    editor.cursor.col = 12;
    editor.viewport.row_offset = 5;
    editor.viewport.col_offset = 10;
    let mut ctx = RenderContext::new(10, 5);
    plugin.on_render(&editor, &mut ctx);
    assert_eq!(ctx.cursor, Some((2, 2)));
}

#[test]
fn full_frame_composes_buffer_status_and_prompt() {
    let mut pipeline = Pipeline::new();
    let mut editor = Editor::new(40, 5, None);
    editor.buffer.lines = vec!["alpha".to_string(), "beta".to_string()];
    let key = |c: char| Event::Key(KeyEvent { code: KeyCode::Char(c), ctrl: false, alt: false });
    pipeline.handle_event(&mut editor, &key(':'));
    pipeline.handle_event(&mut editor, &key('w'));
    let ctx = pipeline.render_frame(&editor);
    // content height 3 while the command line is active
    assert_eq!(ctx.lines[0], "alpha");
    assert_eq!(ctx.lines[1], "beta");
    assert_eq!(ctx.lines[2], "~");
    assert!(ctx.lines[3].starts_with("COMMAND [No Name]"));
    assert!(ctx.lines[3].ends_with("Ln 1, Col 1"));
    assert_eq!(ctx.lines[3].chars().count(), 40);
    assert_eq!(ctx.lines[4], ":w");
    // the cursor sits on the prompt, one past the typed text
    assert_eq!(ctx.cursor, Some((4, 2)));
}

#[test]
fn cursor_render_sits_on_command_line_while_active() {
    let plugin = CursorRenderPlugin;
    let mut editor = Editor::new(20, 5, None);
    editor.command_line.active = true;
    editor.command_line.input = "wq".to_string();
    let mut ctx = RenderContext::new(20, 5);
    plugin.on_render(&editor, &mut ctx);
    // bottom row, one past the ":" prompt and the two typed characters
    assert_eq!(ctx.cursor, Some((4, 3)));
}
