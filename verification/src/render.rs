//! Per-frame output: the render surface that handlers write into, styled
//! spans, line slicing against the viewport, and the status and command
//! lines. The surface is rebuilt from scratch every frame.

use vstd::prelude::*;

use crate::editor::{
    spec_command_row, spec_content_height, spec_status_row, Editor, EditorView, Mode,
};
use crate::text::{dec_rep, spaces, take_chars, truncate_chars, u64_to_string};

verus! {

/// A color for a styled span: either absent (the terminal default) or an
/// RGB triple.
#[derive(Debug, Clone, Copy, PartialEq, Eq, Structural)]
pub enum SpanColor {
    Unset,
    Rgb(u8, u8, u8),
}

/// The visual style of a run of characters.
#[derive(Debug, Clone, Copy, PartialEq, Eq, Structural)]
pub struct Style {
    pub foreground: SpanColor,
    pub background: SpanColor,
    pub bold: bool,
    pub italic: bool,
    pub underline: bool,
}

/// Styled span in a rendered line: `len` characters starting at character
/// `start`, in character coordinates of that line.
#[derive(Debug, Clone, Copy, PartialEq, Eq, Structural)]
pub struct StyledSpan {
    pub start: usize,
    pub len: usize,
    pub style: Style,
}

impl DeepView for StyledSpan {
    type V = StyledSpan;

    open spec fn deep_view(&self) -> StyledSpan {
        *self
    }
}

/// The pure model of a render surface.
#[verifier::ext_equal]
pub struct RenderContextView {
    pub width: u16,
    pub height: u16,
    pub lines: Seq<Seq<char>>,
    pub spans: Seq<Seq<StyledSpan>>,
    pub cursor: Option<(u16, u16)>,
}

/// Render surface written by handlers: one text row per screen line, a
/// parallel array of styled spans, and at most one cursor placement.
pub struct RenderContext {
    pub width: u16,
    pub height: u16,
    pub lines: Vec<String>,
    pub spans: Vec<Vec<StyledSpan>>,
    pub cursor: Option<(u16, u16)>,
}

impl View for RenderContext {
    type V = RenderContextView;

    open spec fn view(&self) -> RenderContextView {
        RenderContextView {
            width: self.width,
            height: self.height,
            lines: self.lines.deep_view(),
            spans: self.spans.deep_view(),
            cursor: self.cursor,
        }
    }
}

/// What `set_line` leaves in the row array: rows outside the surface are
/// untouched, and the text is truncated to the surface width.
pub open spec fn spec_set_line(
    lines: Seq<Seq<char>>,
    width: u16,
    row: nat,
    text: Seq<char>,
) -> Seq<Seq<char>> {
    if row >= lines.len() {
        lines
    } else if width == 0 {
        lines.update(row as int, Seq::<char>::empty())
    } else {
        lines.update(row as int, take_chars(text, width as nat))
    }
}

impl RenderContext {
    /// A fresh, empty surface: every row blank, no spans, no cursor.
    pub fn new(width: u16, height: u16) -> (ctx: RenderContext)
        ensures
            ctx@.width == width,
            ctx@.height == height,
            ctx@.lines.len() == height as nat,
            forall|i: int| 0 <= i < height as int ==> ctx@.lines[i] == Seq::<char>::empty(),
            ctx@.spans.len() == height as nat,
            forall|i: int| 0 <= i < height as int ==> ctx@.spans[i] == Seq::<StyledSpan>::empty(),
            ctx@.cursor is None,
    {
        let mut lines: Vec<String> = Vec::new();
        let mut spans: Vec<Vec<StyledSpan>> = Vec::new();
        let mut i: u16 = 0;
        while i < height
            invariant
                i <= height,
                lines@.len() == i as nat,
                spans@.len() == i as nat,
                forall|j: int| 0 <= j < i as int ==> (#[trigger] lines@[j])@ == Seq::<char>::empty(),
                forall|j: int| 0 <= j < i as int ==> (#[trigger] spans@[j])@ == Seq::<
                    StyledSpan,
                >::empty(),
            decreases height - i,
        {
            lines.push(String::new());
            spans.push(Vec::new());
            i = i + 1;
        }
        proof {
            assert(forall|j: int|
                0 <= j < height as int ==> lines.deep_view()[j] == Seq::<char>::empty());
            assert(forall|j: int|
                0 <= j < height as int ==> spans.deep_view()[j] =~= Seq::<StyledSpan>::empty());
        }
        RenderContext { width, height, lines, spans, cursor: None }
    }

    /// Writes one row of text, truncated to the surface width; rows outside
    /// the surface are ignored.
    pub fn set_line(&mut self, row: u16, text: String)
        ensures
            final(self)@ == (RenderContextView {
                lines: spec_set_line(old(self)@.lines, old(self)@.width, row as nat, text@),
                ..old(self)@
            }),
    {
        let row_index = row as usize;
        if row_index >= self.lines.len() {
            proof {
                assert(final(self)@ =~= (RenderContextView {
                    lines: spec_set_line(old(self)@.lines, old(self)@.width, row as nat, text@),
                    ..old(self)@
                }));
            }
            return ;
        }
        if self.width == 0 {
            self.lines[row_index] = String::new();
        } else {
            let truncated = truncate_chars(&text, self.width as usize);
            self.lines[row_index] = truncated;
        }
        proof {
            assert(final(self)@ =~= (RenderContextView {
                lines: spec_set_line(old(self)@.lines, old(self)@.width, row as nat, text@),
                ..old(self)@
            }));
        }
    }

    /// Replaces the styled spans of one row; rows outside the surface are
    /// ignored.
    pub fn set_spans(&mut self, row: u16, row_spans: Vec<StyledSpan>)
        ensures
            final(self)@ == (RenderContextView {
                spans: if row as nat >= old(self)@.spans.len() {
                    old(self)@.spans
                } else {
                    old(self)@.spans.update(row as int, row_spans@)
                },
                ..old(self)@
            }),
    {
        let row_index = row as usize;
        if row_index >= self.spans.len() {
            proof {
                assert(final(self)@ =~= old(self)@);
            }
            return ;
        }
        self.spans[row_index] = row_spans;
        proof {
            assert(row_spans.deep_view() =~= row_spans@);
            assert(final(self)@ =~~= (RenderContextView {
                spans: old(self)@.spans.update(row as int, row_spans@),
                ..old(self)@
            }));
        }
    }

    /// Places the cursor.
    pub fn set_cursor(&mut self, row: u16, col: u16)
        ensures
            final(self)@ == (RenderContextView { cursor: Some((row, col)), ..old(self)@ }),
    {
        self.cursor = Some((row, col));
        proof {
            assert(final(self)@ =~= (RenderContextView {
                cursor: Some((row, col)),
                ..old(self)@
            }));
        }
    }
}

/// The window of a buffer line that the viewport shows: `width` characters
/// starting at `col_offset`, clipped to the line.
pub open spec fn spec_slice_line(line: Seq<char>, col_offset: nat, width: nat) -> Seq<char> {
    let lo = if col_offset < line.len() {
        col_offset as int
    } else {
        line.len() as int
    };
    let k = if width < line.len() - lo {
        width as int
    } else {
        line.len() - lo
    };
    line.subrange(lo, lo + k)
}

/// Cuts the visible window out of one buffer line.
pub fn slice_line(line: &String, col_offset: usize, width: usize) -> (r: String)
    ensures
        r@ == spec_slice_line(line@, col_offset as nat, width as nat),
{
    let n = crate::text::char_count(line);
    let lo = if col_offset < n {
        col_offset
    } else {
        n
    };
    let k = if width < n - lo {
        width
    } else {
        n - lo
    };
    let r = line.as_str().substring_char(lo, lo + k).to_owned();
    proof {
        assert(r@ =~= spec_slice_line(line@, col_offset as nat, width as nat));
    }
    r
}

/// Status-line composition at width `w`: when the right-aligned text is at
/// least as wide as the line, it alone appears, truncated; otherwise the
/// left text is truncated to the space before it and the gap is
/// space-padded, for a total length of exactly `w`.
pub open spec fn spec_status_line(left: Seq<char>, right: Seq<char>, w: nat) -> Seq<char> {
    if w == 0 {
        Seq::<char>::empty()
    } else if right.len() >= w {
        right.take(w as int)
    } else {
        let avail = (w - right.len() - 1) as nat;
        let lt = take_chars(left, avail);
        let pad = (w - lt.len() - right.len()) as nat;
        lt + Seq::new(pad, |i: int| ' ') + right
    }
}

/// Composes the status line from its left and right parts. The result
/// always has exactly `width` characters (for any positive width).
pub fn format_status_line(left: &String, right: &String, width: usize) -> (r: String)
    ensures
        r@ == spec_status_line(left@, right@, width as nat),
        r@.len() == width,
{
    let right_len = crate::text::char_count(right);
    if width == 0 {
        return String::new();
    }
    if right_len >= width {
        let r = truncate_chars(right, width);
        proof {
            assert(r@ =~= spec_status_line(left@, right@, width as nat));
        }
        return r;
    }
    let avail = width - right_len - 1;
    let mut r = truncate_chars(left, avail);
    let lt_len = crate::text::char_count(&r);
    let pad = width - lt_len - right_len;
    let gap = spaces(pad);
    r.append(gap.as_str());
    r.append(right.as_str());
    proof {
        assert(r@ =~= spec_status_line(left@, right@, width as nat));
    }
    r
}

/// Draws the visible window of the buffer; rows past the end of the buffer
/// show a `~` marker.
pub struct BufferRenderPlugin;

/// The text that the buffer renderer leaves in row `row` of the surface.
pub open spec fn spec_buffer_row(e: EditorView, width: u16, row: nat) -> Seq<char> {
    if e.row_offset + row < e.lines.len() {
        take_chars(
            spec_slice_line(e.lines[(e.row_offset + row) as int], e.col_offset, width as nat),
            width as nat,
        )
    } else {
        take_chars("~"@, width as nat)
    }
}

impl BufferRenderPlugin {
    /// Writes rows `0 .. content_height` of the surface; other rows and all
    /// spans are untouched.
    pub fn on_render(&self, editor: &Editor, ctx: &mut RenderContext)
        ensures
            final(ctx)@.width == old(ctx)@.width,
            final(ctx)@.height == old(ctx)@.height,
            final(ctx)@.spans == old(ctx)@.spans,
            final(ctx)@.cursor == old(ctx)@.cursor,
            final(ctx)@.lines.len() == old(ctx)@.lines.len(),
            forall|i: int|
                0 <= i < final(ctx)@.lines.len() ==> final(ctx)@.lines[i] == (if i
                    < spec_content_height(editor@) as int && old(ctx)@.width > 0 {
                    spec_buffer_row(editor@, old(ctx)@.width, i as nat)
                } else if i < spec_content_height(editor@) as int {
                    Seq::<char>::empty()
                } else {
                    old(ctx)@.lines[i]
                }),
    {
        let content_height = editor.content_height();
        let width = ctx.width as usize;
        let mut row: u16 = 0;
        while row < content_height
            invariant
                row <= content_height,
                content_height as nat == spec_content_height(editor@),
                width == ctx@.width as nat,
                ctx@.width == old(ctx)@.width,
                ctx@.height == old(ctx)@.height,
                ctx@.spans == old(ctx)@.spans,
                ctx@.cursor == old(ctx)@.cursor,
                ctx@.lines.len() == old(ctx)@.lines.len(),
                forall|i: int|
                    0 <= i < ctx@.lines.len() ==> ctx@.lines[i] == (if i < row as int && ctx@.width
                        > 0 {
                        spec_buffer_row(editor@, old(ctx)@.width, i as nat)
                    } else if i < row as int {
                        Seq::<char>::empty()
                    } else {
                        old(ctx)@.lines[i]
                    }),
            decreases content_height - row,
        {
            let ro = editor.viewport.row_offset;
            let len = editor.buffer.lines.len();
            if ro < len && (row as usize) < len - ro {
                let buffer_row = ro + row as usize;
                let slice = slice_line(
                    &editor.buffer.lines[buffer_row],
                    editor.viewport.col_offset,
                    width,
                );
                ctx.set_line(row, slice);
            } else {
                ctx.set_line(row, "~".to_owned());
            }
            row = row + 1;
        }
    }
}

/// The label the status line shows for each mode.
pub open spec fn spec_mode_label(m: Mode) -> Seq<char> {
    match m {
        Mode::Normal => "NORMAL"@,
        Mode::Insert => "INSERT"@,
        Mode::Command => "COMMAND"@,
    }
}

/// The left status text: mode label, document name, and a dirty marker.
pub open spec fn spec_status_left(e: EditorView) -> Seq<char> {
    let name = match e.file_path {
        Some(p) => p,
        None => "[No Name]"@,
    };
    let dirty = if e.dirty {
        " [+]"@
    } else {
        Seq::<char>::empty()
    };
    spec_mode_label(e.mode) + " "@ + name + dirty
}

/// The right status text: the one-line status message, or the cursor
/// position when no message is set.
pub open spec fn spec_status_right(e: EditorView) -> Seq<char> {
    if e.status.len() == 0 {
        "Ln "@ + dec_rep((e.cursor_row + 1) as nat) + ", Col "@ + dec_rep((e.cursor_col + 1) as nat)
    } else {
        e.status
    }
}

/// Draws the status line.
pub struct StatusBarPlugin;

impl StatusBarPlugin {
    /// Writes the composed status line into its row; everything else is
    /// untouched. Does nothing on a zero-height surface.
    pub fn on_render(&self, editor: &Editor, ctx: &mut RenderContext)
        requires
            editor@.cursor_row + 1 <= u64::MAX,
            editor@.cursor_col + 1 <= u64::MAX,
        ensures
            final(ctx)@ == (RenderContextView {
                lines: if old(ctx)@.height == 0 {
                    old(ctx)@.lines
                } else {
                    spec_set_line(
                        old(ctx)@.lines,
                        old(ctx)@.width,
                        spec_status_row(editor@),
                        spec_status_line(
                            spec_status_left(editor@),
                            spec_status_right(editor@),
                            old(ctx)@.width as nat,
                        ),
                    )
                },
                ..old(ctx)@
            }),
    {
        if ctx.height == 0 {
            proof {
                assert(final(ctx)@ =~= (RenderContextView { ..old(ctx)@ }));
            }
            return ;
        }
        let mode_label: String = match editor.mode {
            Mode::Normal => "NORMAL".to_owned(),
            Mode::Insert => "INSERT".to_owned(),
            Mode::Command => "COMMAND".to_owned(),
        };
        let name: String = match &editor.file_path {
            Some(p) => p.clone(),
            None => "[No Name]".to_owned(),
        };
        let mut left = mode_label;
        left.append(" ");
        left.append(name.as_str());
        if editor.dirty {
            left.append(" [+]");
        }
        proof {
            assert(left@ =~= spec_status_left(editor@));
        }
        let right: String = if editor.status.as_str().unicode_len() == 0 {
            let mut r = "Ln ".to_owned();
            let row_text = u64_to_string((editor.cursor.row as u64) + 1);
            r.append(row_text.as_str());
            r.append(", Col ");
            let col_text = u64_to_string((editor.cursor.col as u64) + 1);
            r.append(col_text.as_str());
            proof {
                assert(r@ =~= spec_status_right(editor@));
            }
            r
        } else {
            editor.status.clone()
        };
        let line = format_status_line(&left, &right, ctx.width as usize);
        let status_row = editor.status_row();
        ctx.set_line(status_row, line);
    }
}

/// Draws the command-line prompt while command input is active.
pub struct CommandLineRenderPlugin;

impl CommandLineRenderPlugin {
    /// Writes `:` and the pending input into the bottom row while command
    /// mode is active; otherwise leaves the surface untouched.
    pub fn on_render(&self, editor: &Editor, ctx: &mut RenderContext)
        ensures
            final(ctx)@ == (RenderContextView {
                lines: if !editor@.cmd_active || old(ctx)@.height == 0 {
                    old(ctx)@.lines
                } else {
                    spec_set_line(
                        old(ctx)@.lines,
                        old(ctx)@.width,
                        spec_command_row(editor@),
                        ":"@ + editor@.cmd_input,
                    )
                },
                ..old(ctx)@
            }),
    {
        if !editor.command_line.active || ctx.height == 0 {
            proof {
                assert(final(ctx)@ =~= (RenderContextView { ..old(ctx)@ }));
            }
            return ;
        }
        let mut prompt = ":".to_owned();
        prompt.append(editor.command_line.input.as_str());
        let row = editor.command_row();
        ctx.set_line(row, prompt);
    }
}

/// The text the full render pass leaves in row `i` of a frame sized to the
/// editor's screen: the command prompt on its row while command input is
/// active, the status line on its row, the visible buffer window above
/// them, and blank rows elsewhere. Later handlers overlay earlier ones, so
/// the prompt wins over the status line when the two rows coincide.
pub open spec fn spec_frame_row(e: EditorView, i: int) -> Seq<char> {
    let w = e.screen_width;
    if e.cmd_active && i == spec_command_row(e) as int {
        if w == 0 {
            Seq::<char>::empty()
        } else {
            take_chars(":"@ + e.cmd_input, w as nat)
        }
    } else if i == spec_status_row(e) as int {
        if w == 0 {
            Seq::<char>::empty()
        } else {
            take_chars(
                spec_status_line(spec_status_left(e), spec_status_right(e), w as nat),
                w as nat,
            )
        }
    } else if i < spec_content_height(e) as int {
        if w == 0 {
            Seq::<char>::empty()
        } else {
            spec_buffer_row(e, w, i as nat)
        }
    } else {
        Seq::<char>::empty()
    }
}

/// Places the terminal cursor: on the command line while it is active, else
/// at the buffer cursor relative to the viewport, clamped to the surface.
pub struct CursorRenderPlugin;

/// Difference clamped at zero.
pub open spec fn sat_sub(a: nat, b: nat) -> nat {
    if a >= b {
        (a - b) as nat
    } else {
        0
    }
}

/// The cursor placement this renderer produces (`None` means it leaves the
/// surface's placement unchanged). Coordinates are clamped to the surface.
pub open spec fn spec_cursor_placement(e: EditorView, width: u16, height: u16) -> Option<
    (u16, u16),
> {
    if height == 0 || width == 0 {
        None
    } else if e.cmd_active {
        let row = if spec_command_row(e) < (height - 1) as nat {
            spec_command_row(e) as u16
        } else {
            (height - 1) as u16
        };
        let col = if 1 + e.cmd_input.len() < (width - 1) as nat {
            (1 + e.cmd_input.len()) as u16
        } else {
            (width - 1) as u16
        };
        Some((row, col))
    } else {
        let crow = sat_sub(e.cursor_row, e.row_offset);
        let ccol = sat_sub(e.cursor_col, e.col_offset);
        let row = if crow < (height - 1) as nat {
            crow as u16
        } else {
            (height - 1) as u16
        };
        let col = if ccol < (width - 1) as nat {
            ccol as u16
        } else {
            (width - 1) as u16
        };
        Some((row, col))
    }
}

impl CursorRenderPlugin {
    pub fn on_render(&self, editor: &Editor, ctx: &mut RenderContext)
        requires
            editor@.cmd_input.len() + 1 <= usize::MAX,
        ensures
            final(ctx)@ == (RenderContextView {
                cursor: match spec_cursor_placement(editor@, old(ctx)@.width, old(ctx)@.height) {
                    Some(p) => Some(p),
                    None => old(ctx)@.cursor,
                },
                ..old(ctx)@
            }),
    {
        if ctx.height == 0 || ctx.width == 0 {
            proof {
                assert(final(ctx)@ =~= (RenderContextView { ..old(ctx)@ }));
            }
            return ;
        }
        if editor.command_line.active {
            let cmd_row = editor.command_row();
            let row = if cmd_row < ctx.height - 1 {
                cmd_row
            } else {
                ctx.height - 1
            };
            let full = 1 + crate::text::char_count(&editor.command_line.input);
            let col = if full < (ctx.width - 1) as usize {
                full as u16
            } else {
                ctx.width - 1
            };
            ctx.set_cursor(row, col);
            return ;
        }
        let row_diff: usize = if editor.cursor.row >= editor.viewport.row_offset {
            editor.cursor.row - editor.viewport.row_offset
        } else {
            0
        };
        let col_diff: usize = if editor.cursor.col >= editor.viewport.col_offset {
            editor.cursor.col - editor.viewport.col_offset
        } else {
            0
        };
        let row = if row_diff < (ctx.height - 1) as usize {
            row_diff as u16
        } else {
            ctx.height - 1
        };
        let col = if col_diff < (ctx.width - 1) as usize {
            col_diff as u16
        } else {
            ctx.width - 1
        };
        ctx.set_cursor(row, col);
    }
}

} // verus!
