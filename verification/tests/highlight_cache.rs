use minivim::editor::Editor;
use minivim::highlight::{compute_spans, slice_spans, SyntaxHighlightPlugin};
use minivim::pipeline::Pipeline;
use minivim::render::{SpanColor, Style, StyledSpan};

fn plain() -> Style {
    Style {
        foreground: SpanColor::Unset,
        background: SpanColor::Unset,
        bold: false,
        italic: false,
        underline: false,
    }
}

fn blue() -> Style {
    Style { foreground: SpanColor::Rgb(0, 0, 255), ..plain() }
}

#[test]
fn edit_forces_recompute_and_reuse_avoids_it() {
    let mut pipeline = Pipeline::new();
    let mut editor = Editor::new(40, 10, None);
    assert_eq!(pipeline.syntax.recompute_count, 0);

    pipeline.render_frame(&editor);
    assert_eq!(pipeline.syntax.recompute_count, 1);

    // a second render with an unchanged revision reuses the cache verbatim
    let cached_before = pipeline.syntax.cached_spans.clone();
    pipeline.render_frame(&editor);
    assert_eq!(pipeline.syntax.recompute_count, 1);
    assert_eq!(pipeline.syntax.cached_spans, cached_before);

    // an edit bumps the revision and forces a recompute before the next frame
    editor.insert_char('a');
    pipeline.render_frame(&editor);
    assert_eq!(pipeline.syntax.recompute_count, 2);
    assert_eq!(pipeline.syntax.last_revision, editor.revision);
}

#[test]
fn identity_change_forces_recompute() {
    let mut pipeline = Pipeline::new();
    let mut editor = Editor::new(40, 10, None);
    pipeline.render_frame(&editor);
    assert_eq!(pipeline.syntax.recompute_count, 1);
    editor.file_path = Some("a.rs".to_string());
    pipeline.render_frame(&editor);
    assert_eq!(pipeline.syntax.recompute_count, 2);
}

#[test]
fn line_count_mismatch_forces_recompute() {
    let mut pipeline = Pipeline::new();
    let mut editor = Editor::new(40, 10, None);
    pipeline.render_frame(&editor);
    assert_eq!(pipeline.syntax.recompute_count, 1);
    // structural change behind the cache's back, same revision stamp
    editor.buffer.lines.push("more".to_string());
    pipeline.render_frame(&editor);
    assert_eq!(pipeline.syntax.recompute_count, 2);
    assert_eq!(pipeline.syntax.cached_spans.len(), 2);
}

#[test]
fn computed_spans_cover_lines_in_order() {
    let plugin = SyntaxHighlightPlugin::new();
    let lines = vec!["fn main() {".to_string(), "    let x = 1;".to_string(), "}".to_string()];
    let spans = compute_spans(
        &plugin.syntax_set,
        &plugin.theme,
        &Some("demo.rs".to_string()),
        &lines,
    );
    assert_eq!(spans.len(), lines.len());
    for (row, line) in lines.iter().enumerate() {
        let line_len = line.chars().count();
        let row_spans = &spans[row];
        assert!(!row_spans.is_empty());
        let mut prev_end = 0;
        for span in row_spans {
            assert!(span.len >= 1);
            assert!(span.start >= prev_end);
            prev_end = span.start + span.len;
            assert!(prev_end <= line_len);
        }
    }
}

#[test]
fn needs_rehighlight_tracks_stamp() {
    let mut pipeline = Pipeline::new();
    let editor = Editor::new(40, 10, None);
    assert!(pipeline.syntax.needs_rehighlight(&editor));
    pipeline.render_frame(&editor);
    assert!(!pipeline.syntax.needs_rehighlight(&editor));
}

#[test]
fn slice_spans_drops_truncates_and_rebases() {
    let spans = vec![
        StyledSpan { start: 0, len: 4, style: plain() },
        StyledSpan { start: 4, len: 6, style: blue() },
        StyledSpan { start: 12, len: 3, style: plain() },
    ];
    // window shows columns 5..11
    let visible = slice_spans(&spans, 5, 6);
    assert_eq!(
        visible,
        vec![StyledSpan { start: 0, len: 5, style: blue() }],
    );
    // zero width drops everything
    assert_eq!(slice_spans(&spans, 5, 0), vec![]);
    // a window past the spans keeps nothing
    assert_eq!(slice_spans(&spans, 20, 6), vec![]);
    // an aligned window keeps a span whole, rebased
    let visible = slice_spans(&spans, 4, 20);
    assert_eq!(
        visible,
        vec![
            StyledSpan { start: 0, len: 6, style: blue() },
            StyledSpan { start: 8, len: 3, style: plain() },
        ],
    );
}

#[test]
fn render_frame_attaches_windowed_spans() {
    let mut pipeline = Pipeline::new();
    let mut editor = Editor::new(40, 10, Some("demo.rs".to_string()));
    editor.buffer.lines = vec!["fn main() {}".to_string()];
    editor.revision = 7;
    let ctx = pipeline.render_frame(&editor);
    assert_eq!(ctx.spans.len(), 10);
    assert!(!ctx.spans[0].is_empty());
    for span in &ctx.spans[0] {
        assert!(span.start + span.len <= 40);
    }
}
