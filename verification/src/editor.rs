//! Editor state: the line buffer, the cursor and viewport, the command-line
//! staging state, and every edit operation.
//!
//! Each executable operation is specified against a pure model: `EditorView`
//! mirrors the whole editor state over mathematical types, and a spec
//! function per operation says exactly what the new state is. The exec
//! methods ensure equality with that model, so the handler pipeline can be
//! reasoned about as a pure state machine.

use vstd::prelude::*;

use crate::text::{
    char_count, concat_lines, insert_char_at, join_lines, lines_of_string, no_newline,
    remove_char_at, split_line_at, split_lines, string_of_lines,
};

verus! {

/// Editor mode for key handling.
#[derive(Debug, Clone, Copy, PartialEq, Eq, Structural)]
pub enum Mode {
    Normal,
    Insert,
    Command,
}

/// Cursor position in the buffer (0-based), in character coordinates.
#[derive(Debug, Clone, Copy, PartialEq, Eq, Structural)]
pub struct Cursor {
    pub row: usize,
    pub col: usize,
}

/// Viewport offsets into the buffer for rendering: the top-left character
/// shown.
#[derive(Debug, Clone, Copy, PartialEq, Eq, Structural)]
pub struct Viewport {
    pub row_offset: usize,
    pub col_offset: usize,
}

/// In-memory text buffer stored as lines. At least one line always exists.
#[derive(Debug, Clone)]
pub struct Buffer {
    pub lines: Vec<String>,
}

impl View for Buffer {
    type V = Seq<Seq<char>>;

    open spec fn view(&self) -> Seq<Seq<char>> {
        self.lines.deep_view()
    }
}

impl Buffer {
    /// A buffer holding one empty line.
    pub fn new() -> (b: Buffer)
        ensures
            b@ =~~= seq![Seq::<char>::empty()],
    {
        let mut lines: Vec<String> = Vec::new();
        lines.push(String::new());
        Buffer { lines }
    }

    /// The buffer whose lines are the document text split on line breaks.
    pub fn from_string(contents: String) -> (b: Buffer)
        ensures
            b@ == split_lines(contents@),
            b@.len() >= 1,
    {
        let lines = lines_of_string(&contents);
        Buffer { lines }
    }

    /// The document text: the lines joined with line breaks, so a buffer of
    /// N lines reproduces exactly N - 1 breaks.
    pub fn to_string(&self) -> (contents: String)
        ensures
            contents@ == join_lines(self@),
    {
        string_of_lines(&self.lines)
    }
}

/// State for ex-style command input.
#[derive(Debug, Clone)]
pub struct CommandLine {
    pub active: bool,
    pub input: String,
}

impl CommandLine {
    pub fn new() -> (c: CommandLine)
        ensures
            !c.active,
            c.input@ == Seq::<char>::empty(),
    {
        CommandLine { active: false, input: String::new() }
    }
}

/// A save that command handling has decided on; the caller performs the
/// write and reports back through `Editor::finish_save`.
#[derive(Debug, Clone)]
pub struct SaveRequest {
    pub path: String,
    pub quit_after: bool,
}

/// The pure model of a pending save request.
pub struct SaveRequestView {
    pub path: Seq<char>,
    pub quit_after: bool,
}

impl View for SaveRequest {
    type V = SaveRequestView;

    open spec fn view(&self) -> SaveRequestView {
        SaveRequestView { path: self.path@, quit_after: self.quit_after }
    }
}

/// The pure model of the whole editor state.
#[verifier::ext_equal]
pub struct EditorView {
    pub lines: Seq<Seq<char>>,
    pub cursor_row: nat,
    pub cursor_col: nat,
    pub row_offset: nat,
    pub col_offset: nat,
    pub mode: Mode,
    pub cmd_active: bool,
    pub cmd_input: Seq<char>,
    pub status: Seq<char>,
    pub file_path: Option<Seq<char>>,
    pub should_quit: bool,
    pub dirty: bool,
    pub revision: u64,
    pub screen_width: u16,
    pub screen_height: u16,
    pub command_queue: Seq<Seq<char>>,
    pub pending_save: Option<SaveRequestView>,
}

/// Shared editor state operated on by the handler pipeline.
#[derive(Debug)]
pub struct Editor {
    pub buffer: Buffer,
    pub cursor: Cursor,
    pub viewport: Viewport,
    pub mode: Mode,
    pub command_line: CommandLine,
    pub status: String,
    pub file_path: Option<String>,
    pub should_quit: bool,
    pub dirty: bool,
    pub revision: u64,
    pub screen_width: u16,
    pub screen_height: u16,
    pub command_queue: Vec<String>,
    pub pending_save: Option<SaveRequest>,
}

impl View for Editor {
    type V = EditorView;

    open spec fn view(&self) -> EditorView {
        EditorView {
            lines: self.buffer@,
            cursor_row: self.cursor.row as nat,
            cursor_col: self.cursor.col as nat,
            row_offset: self.viewport.row_offset as nat,
            col_offset: self.viewport.col_offset as nat,
            mode: self.mode,
            cmd_active: self.command_line.active,
            cmd_input: self.command_line.input@,
            status: self.status@,
            file_path: self.file_path.deep_view(),
            should_quit: self.should_quit,
            dirty: self.dirty,
            revision: self.revision,
            screen_width: self.screen_width,
            screen_height: self.screen_height,
            command_queue: self.command_queue.deep_view(),
            pending_save: match self.pending_save {
                Some(r) => Some(r@),
                None => None,
            },
        }
    }
}

/// Character length of the line at `row`, or zero past the end.
pub open spec fn line_len_at(lines: Seq<Seq<char>>, row: nat) -> nat {
    if row < lines.len() {
        lines[row as int].len()
    } else {
        0
    }
}

/// Rows of text shown: the screen height minus the status line, and minus
/// the command line too while it is active.
pub open spec fn spec_content_height(e: EditorView) -> nat {
    let gutter: nat = if e.cmd_active { 2 } else { 1 };
    if e.screen_height as nat <= gutter {
        0
    } else {
        (e.screen_height as nat - gutter) as nat
    }
}

/// The next revision stamp: one more, wrapping at the top of the range.
pub open spec fn spec_bump(revision: u64) -> u64 {
    if revision == u64::MAX {
        0
    } else {
        (revision + 1) as u64
    }
}

/// Cursor forced back into the buffer: row into `[0, lines.len())` (column
/// reset when the row was out), then column into `[0, line length]`.
pub open spec fn spec_clamp_cursor(e: EditorView) -> EditorView {
    let e1 = if e.cursor_row >= e.lines.len() {
        EditorView {
            cursor_row: if e.lines.len() == 0 { 0 } else { (e.lines.len() - 1) as nat },
            cursor_col: 0,
            ..e
        }
    } else {
        e
    };
    let ll = line_len_at(e1.lines, e1.cursor_row);
    if e1.cursor_col > ll {
        EditorView { cursor_col: ll, ..e1 }
    } else {
        e1
    }
}

/// Viewport scrolled so the cursor is visible: each offset jumps to the
/// cursor when the cursor is before it, or to `cursor - (extent - 1)` when
/// the cursor is at or past the far edge. A zero extent pins the offset to
/// the cursor coordinate itself.
pub open spec fn spec_ensure_visible(e: EditorView) -> EditorView {
    let ch = spec_content_height(e);
    let ro = if ch == 0 {
        e.cursor_row
    } else if e.cursor_row < e.row_offset {
        e.cursor_row
    } else if e.cursor_row >= e.row_offset + ch {
        (e.cursor_row - (ch - 1)) as nat
    } else {
        e.row_offset
    };
    let cw = e.screen_width as nat;
    let co = if cw == 0 {
        e.cursor_col
    } else if e.cursor_col < e.col_offset {
        e.cursor_col
    } else if e.cursor_col >= e.col_offset + cw {
        (e.cursor_col - (cw - 1)) as nat
    } else {
        e.col_offset
    };
    EditorView { row_offset: ro, col_offset: co, ..e }
}

/// One character inserted at the cursor (appending a new line first when the
/// cursor row is just past the end), column advanced, content marked dirty.
pub open spec fn spec_insert_char(e: EditorView, c: char) -> EditorView {
    let lines1 = if e.cursor_row >= e.lines.len() {
        e.lines.push(Seq::<char>::empty())
    } else {
        e.lines
    };
    let line = lines1[e.cursor_row as int];
    let k = if e.cursor_col < line.len() { e.cursor_col as int } else { line.len() as int };
    let lines2 = lines1.update(e.cursor_row as int, line.take(k) + seq![c] + line.skip(k));
    spec_ensure_visible(
        EditorView {
            lines: lines2,
            cursor_col: (e.cursor_col + 1) as nat,
            dirty: true,
            revision: spec_bump(e.revision),
            ..e
        },
    )
}

/// The current line split at the cursor; the cursor moves to the start of
/// the new second line.
pub open spec fn spec_insert_newline(e: EditorView) -> EditorView {
    let lines1 = if e.cursor_row >= e.lines.len() {
        e.lines.push(Seq::<char>::empty())
    } else {
        e.lines
    };
    let line = lines1[e.cursor_row as int];
    let k = if e.cursor_col < line.len() { e.cursor_col as int } else { line.len() as int };
    let lines2 = lines1.update(e.cursor_row as int, line.take(k)).insert(
        e.cursor_row as int + 1,
        line.skip(k),
    );
    spec_ensure_visible(
        EditorView {
            lines: lines2,
            cursor_row: (e.cursor_row + 1) as nat,
            cursor_col: 0,
            dirty: true,
            revision: spec_bump(e.revision),
            ..e
        },
    )
}

/// Backspace: deletes the character before the cursor, or at the start of a
/// line merges it onto the previous line, with the cursor landing at the
/// previous line's pre-merge character length; a no-op at the buffer start.
pub open spec fn spec_backspace(e: EditorView) -> EditorView {
    if e.cursor_row >= e.lines.len() {
        e
    } else if e.cursor_col > 0 {
        let line = e.lines[e.cursor_row as int];
        let lines2 = e.lines.update(
            e.cursor_row as int,
            line.take(e.cursor_col as int - 1) + line.skip(e.cursor_col as int),
        );
        spec_ensure_visible(
            EditorView {
                lines: lines2,
                cursor_col: (e.cursor_col - 1) as nat,
                dirty: true,
                revision: spec_bump(e.revision),
                ..e
            },
        )
    } else if e.cursor_row > 0 {
        let prev = e.lines[e.cursor_row as int - 1];
        let merged = prev + e.lines[e.cursor_row as int];
        let lines2 = e.lines.update(e.cursor_row as int - 1, merged).remove(e.cursor_row as int);
        spec_ensure_visible(
            EditorView {
                lines: lines2,
                cursor_row: (e.cursor_row - 1) as nat,
                cursor_col: prev.len(),
                dirty: true,
                revision: spec_bump(e.revision),
                ..e
            },
        )
    } else {
        spec_ensure_visible(e)
    }
}

/// Delete: removes the character at the cursor, or at the end of a line
/// merges the following line onto it (cursor unchanged); a no-op at the
/// buffer end.
pub open spec fn spec_delete_char(e: EditorView) -> EditorView {
    if e.cursor_row >= e.lines.len() {
        e
    } else {
        let line = e.lines[e.cursor_row as int];
        if e.cursor_col < line.len() {
            let lines2 = e.lines.update(
                e.cursor_row as int,
                line.take(e.cursor_col as int) + line.skip(e.cursor_col as int + 1),
            );
            spec_ensure_visible(
                EditorView { lines: lines2, dirty: true, revision: spec_bump(e.revision), ..e },
            )
        } else if e.cursor_row + 1 < e.lines.len() {
            let merged = line + e.lines[e.cursor_row as int + 1];
            let lines2 = e.lines.update(e.cursor_row as int, merged).remove(
                e.cursor_row as int + 1,
            );
            spec_ensure_visible(
                EditorView { lines: lines2, dirty: true, revision: spec_bump(e.revision), ..e },
            )
        } else {
            spec_ensure_visible(e)
        }
    }
}

pub open spec fn spec_move_left(e: EditorView) -> EditorView {
    let e1 = if e.cursor_col > 0 {
        EditorView { cursor_col: (e.cursor_col - 1) as nat, ..e }
    } else {
        e
    };
    spec_ensure_visible(e1)
}

pub open spec fn spec_move_right(e: EditorView) -> EditorView {
    let ll = line_len_at(e.lines, e.cursor_row);
    let e1 = if e.cursor_col < ll {
        EditorView { cursor_col: (e.cursor_col + 1) as nat, ..e }
    } else {
        e
    };
    spec_ensure_visible(e1)
}

pub open spec fn spec_move_up(e: EditorView) -> EditorView {
    let e1 = if e.cursor_row > 0 {
        spec_clamp_cursor(EditorView { cursor_row: (e.cursor_row - 1) as nat, ..e })
    } else {
        e
    };
    spec_ensure_visible(e1)
}

pub open spec fn spec_move_down(e: EditorView) -> EditorView {
    let e1 = if e.cursor_row + 1 < e.lines.len() {
        spec_clamp_cursor(EditorView { cursor_row: (e.cursor_row + 1) as nat, ..e })
    } else {
        e
    };
    spec_ensure_visible(e1)
}

pub open spec fn spec_move_line_start(e: EditorView) -> EditorView {
    spec_ensure_visible(EditorView { cursor_col: 0, ..e })
}

pub open spec fn spec_move_line_end(e: EditorView) -> EditorView {
    spec_ensure_visible(EditorView { cursor_col: line_len_at(e.lines, e.cursor_row), ..e })
}

pub open spec fn spec_set_screen_size(e: EditorView, width: u16, height: u16) -> EditorView {
    spec_ensure_visible(EditorView { screen_width: width, screen_height: height, ..e })
}

/// A fresh load of document text: buffer replaced, cursor and viewport
/// reset, content clean, revision restarted.
pub open spec fn spec_load(e: EditorView, contents: Seq<char>) -> EditorView {
    EditorView {
        lines: split_lines(contents),
        cursor_row: 0,
        cursor_col: 0,
        row_offset: 0,
        col_offset: 0,
        dirty: false,
        revision: 0,
        ..e
    }
}

impl Editor {
    /// A fresh editor over one empty line.
    pub fn new(screen_width: u16, screen_height: u16, file_path: Option<String>) -> (e: Editor)
        ensures
            e@.lines =~~= seq![Seq::<char>::empty()],
            e@.cursor_row == 0,
            e@.cursor_col == 0,
            e@.row_offset == 0,
            e@.col_offset == 0,
            e@.mode == Mode::Normal,
            !e@.cmd_active,
            e@.cmd_input == Seq::<char>::empty(),
            e@.status == Seq::<char>::empty(),
            e@.file_path == file_path.deep_view(),
            !e@.should_quit,
            !e@.dirty,
            e@.revision == 0,
            e@.screen_width == screen_width,
            e@.screen_height == screen_height,
            e@.command_queue == Seq::<Seq<char>>::empty(),
            e@.pending_save is None,
    {
        Editor {
            buffer: Buffer::new(),
            cursor: Cursor { row: 0, col: 0 },
            viewport: Viewport { row_offset: 0, col_offset: 0 },
            mode: Mode::Normal,
            command_line: CommandLine::new(),
            status: String::new(),
            file_path,
            should_quit: false,
            dirty: false,
            revision: 0,
            screen_width,
            screen_height,
            command_queue: Vec::new(),
            pending_save: None,
        }
    }

    /// Records the new screen geometry and keeps the cursor visible.
    pub fn set_screen_size(&mut self, width: u16, height: u16)
        ensures
            final(self)@ == spec_set_screen_size(old(self)@, width, height),
    {
        self.screen_width = width;
        self.screen_height = height;
        self.ensure_cursor_visible();
    }

    /// Rows of text shown above the status (and command) line.
    pub fn content_height(&self) -> (h: u16)
        ensures
            h as nat == spec_content_height(self@),
    {
        let gutter: u16 = if self.command_line.active {
            2
        } else {
            1
        };
        if self.screen_height <= gutter {
            0
        } else {
            self.screen_height - gutter
        }
    }

    /// The screen row where the status line is drawn.
    pub fn status_row(&self) -> (r: u16)
        ensures
            r as nat == spec_status_row(self@),
    {
        let gutter: u16 = if self.command_line.active {
            2
        } else {
            1
        };
        if self.screen_height <= gutter {
            0
        } else {
            self.screen_height - gutter
        }
    }

    /// The screen row where the command line is drawn.
    pub fn command_row(&self) -> (r: u16)
        ensures
            r as nat == spec_command_row(self@),
    {
        if self.screen_height <= 1 {
            0
        } else {
            self.screen_height - 1
        }
    }

    /// Replaces the one-line status message.
    pub fn set_status(&mut self, message: String)
        ensures
            final(self)@ == (EditorView { status: message@, ..old(self)@ }),
    {
        self.status = message;
        proof {
            assert(final(self)@ =~= (EditorView { status: message@, ..old(self)@ }));
        }
    }

    /// Appends a command string to the queue drained once per loop tick.
    pub fn push_command(&mut self, command: String)
        ensures
            final(self)@ == (EditorView {
                command_queue: old(self)@.command_queue.push(command@),
                ..old(self)@
            }),
    {
        self.command_queue.push(command);
        proof {
            assert(final(self)@ =~= (EditorView {
                command_queue: old(self)@.command_queue.push(command@),
                ..old(self)@
            }));
        }
    }

    /// Drains the whole command queue, in submission order.
    pub fn take_commands(&mut self) -> (commands: Vec<String>)
        ensures
            commands.deep_view() == old(self)@.command_queue,
            final(self)@ == (EditorView {
                command_queue: Seq::<Seq<char>>::empty(),
                ..old(self)@
            }),
    {
        let commands = self.command_queue.split_off(0);
        proof {
            assert(commands.deep_view() =~~= old(self)@.command_queue);
            assert(final(self)@ =~= (EditorView {
                command_queue: Seq::<Seq<char>>::empty(),
                ..old(self)@
            }));
        }
        commands
    }

    /// Takes the pending save request, if one was queued by command handling.
    pub fn take_pending_save(&mut self) -> (r: Option<SaveRequest>)
        ensures
            match r {
                Some(req) => old(self)@.pending_save == Some(req@),
                None => old(self)@.pending_save is None,
            },
            final(self)@ == (EditorView { pending_save: None, ..old(self)@ }),
    {
        let r = self.pending_save.take();
        proof {
            assert(final(self)@ =~= (EditorView { pending_save: None, ..old(self)@ }));
        }
        r
    }

    /// Character length of the line under the cursor (zero past the end).
    pub fn current_line_len(&self) -> (n: usize)
        ensures
            n as nat == line_len_at(self@.lines, self@.cursor_row),
    {
        if self.cursor.row < self.buffer.lines.len() {
            char_count(&self.buffer.lines[self.cursor.row])
        } else {
            0
        }
    }

    /// Forces the cursor back inside the buffer after a structural change.
    /// The resulting column never exceeds the current line's character
    /// length, and the row stays below the line count whenever the buffer
    /// has any line.
    pub fn clamp_cursor(&mut self)
        ensures
            final(self)@ == spec_clamp_cursor(old(self)@),
            final(self)@.cursor_col <= line_len_at(final(self)@.lines, final(self)@.cursor_row),
            old(self)@.lines.len() > 0 ==> final(self)@.cursor_row < old(self)@.lines.len(),
    {
        if self.cursor.row >= self.buffer.lines.len() {
            let len = self.buffer.lines.len();
            self.cursor.row = if len == 0 {
                0
            } else {
                len - 1
            };
            self.cursor.col = 0;
        }
        let line_len = self.current_line_len();
        if self.cursor.col > line_len {
            self.cursor.col = line_len;
        }
        proof {
            assert(final(self)@ =~= spec_clamp_cursor(old(self)@));
        }
    }

    /// Scrolls the viewport so the cursor lies inside it (when the extents
    /// allow any visible region at all).
    pub fn ensure_cursor_visible(&mut self)
        ensures
            final(self)@ == spec_ensure_visible(old(self)@),
    {
        let content_height = self.content_height() as usize;
        if content_height == 0 {
            self.viewport.row_offset = self.cursor.row;
        } else if self.cursor.row < self.viewport.row_offset {
            self.viewport.row_offset = self.cursor.row;
        } else if self.cursor.row - self.viewport.row_offset >= content_height {
            self.viewport.row_offset = self.cursor.row - (content_height - 1);
        }
        let content_width = self.screen_width as usize;
        if content_width == 0 {
            self.viewport.col_offset = self.cursor.col;
        } else if self.cursor.col < self.viewport.col_offset {
            self.viewport.col_offset = self.cursor.col;
        } else if self.cursor.col - self.viewport.col_offset >= content_width {
            self.viewport.col_offset = self.cursor.col - (content_width - 1);
        }
        proof {
            assert(final(self)@ =~= spec_ensure_visible(old(self)@));
        }
    }

    pub fn move_left(&mut self)
        ensures
            final(self)@ == spec_move_left(old(self)@),
    {
        if self.cursor.col > 0 {
            self.cursor.col = self.cursor.col - 1;
        }
        self.ensure_cursor_visible();
    }

    pub fn move_right(&mut self)
        ensures
            final(self)@ == spec_move_right(old(self)@),
    {
        let line_len = self.current_line_len();
        if self.cursor.col < line_len {
            self.cursor.col = self.cursor.col + 1;
        }
        self.ensure_cursor_visible();
    }

    pub fn move_up(&mut self)
        ensures
            final(self)@ == spec_move_up(old(self)@),
    {
        if self.cursor.row > 0 {
            self.cursor.row = self.cursor.row - 1;
            self.clamp_cursor();
        }
        self.ensure_cursor_visible();
    }

    pub fn move_down(&mut self)
        ensures
            final(self)@ == spec_move_down(old(self)@),
    {
        let len = self.buffer.lines.len();
        if len > 0 && self.cursor.row < len - 1 {
            self.cursor.row = self.cursor.row + 1;
            self.clamp_cursor();
        }
        self.ensure_cursor_visible();
    }

    pub fn move_line_start(&mut self)
        ensures
            final(self)@ == spec_move_line_start(old(self)@),
    {
        self.cursor.col = 0;
        self.ensure_cursor_visible();
    }

    pub fn move_line_end(&mut self)
        ensures
            final(self)@ == spec_move_line_end(old(self)@),
    {
        self.cursor.col = self.current_line_len();
        self.ensure_cursor_visible();
    }

    fn bump_revision(&mut self)
        ensures
            final(self)@ == (EditorView { revision: spec_bump(old(self)@.revision), ..old(self)@ }),
    {
        self.revision = if self.revision == u64::MAX {
            0
        } else {
            self.revision + 1
        };
        proof {
            assert(final(self)@ =~= (EditorView {
                revision: spec_bump(old(self)@.revision),
                ..old(self)@
            }));
        }
    }

    /// Inserts one character at the cursor.
    pub fn insert_char(&mut self, c: char)
        requires
            old(self)@.cursor_row <= old(self)@.lines.len(),
            old(self)@.cursor_col < usize::MAX,
        ensures
            final(self)@ == spec_insert_char(old(self)@, c),
    {
        if self.cursor.row >= self.buffer.lines.len() {
            self.buffer.lines.push(String::new());
        }
        let row = self.cursor.row;
        let new_line = insert_char_at(&self.buffer.lines[row], self.cursor.col, c);
        self.buffer.lines[row] = new_line;
        self.cursor.col = self.cursor.col + 1;
        self.dirty = true;
        self.bump_revision();
        self.ensure_cursor_visible();
        proof {
            assert(final(self)@ =~= spec_insert_char(old(self)@, c));
        }
    }

    /// Splits the current line at the cursor into two lines.
    pub fn insert_newline(&mut self)
        requires
            old(self)@.cursor_row <= old(self)@.lines.len(),
        ensures
            final(self)@ == spec_insert_newline(old(self)@),
    {
        if self.cursor.row >= self.buffer.lines.len() {
            self.buffer.lines.push(String::new());
        }
        let row = self.cursor.row;
        let (left, right) = split_line_at(&self.buffer.lines[row], self.cursor.col);
        self.buffer.lines[row] = left;
        proof {
            assert(row < self.buffer.lines.len());
        }
        self.buffer.lines.insert(row + 1, right);
        self.cursor.row = row + 1;
        self.cursor.col = 0;
        self.dirty = true;
        self.bump_revision();
        self.ensure_cursor_visible();
        proof {
            assert(final(self)@ =~= spec_insert_newline(old(self)@));
        }
    }

    /// Deletes the character before the cursor, or merges this line onto
    /// the previous one when the cursor is at a line start.
    pub fn backspace(&mut self)
        requires
            old(self)@.cursor_row < old(self)@.lines.len() ==> old(self)@.cursor_col
                <= line_len_at(old(self)@.lines, old(self)@.cursor_row),
        ensures
            final(self)@ == spec_backspace(old(self)@),
    {
        if self.cursor.row >= self.buffer.lines.len() {
            return ;
        }
        if self.cursor.col > 0 {
            let row = self.cursor.row;
            let new_line = remove_char_at(&self.buffer.lines[row], self.cursor.col - 1);
            self.buffer.lines[row] = new_line;
            self.cursor.col = self.cursor.col - 1;
            self.dirty = true;
            self.bump_revision();
        } else if self.cursor.row > 0 {
            let row = self.cursor.row;
            let current = self.buffer.lines.remove(row);
            let prev_len = char_count(&self.buffer.lines[row - 1]);
            let merged = concat_lines(&self.buffer.lines[row - 1], &current);
            self.buffer.lines[row - 1] = merged;
            self.cursor.row = row - 1;
            self.cursor.col = prev_len;
            self.dirty = true;
            self.bump_revision();
            proof {
                let e = old(self)@;
                assert(self@.lines =~~= e.lines.update(
                    e.cursor_row as int - 1,
                    e.lines[e.cursor_row as int - 1] + e.lines[e.cursor_row as int],
                ).remove(e.cursor_row as int));
            }
        }
        self.ensure_cursor_visible();
        proof {
            assert(final(self)@ =~= spec_backspace(old(self)@));
        }
    }

    /// Deletes the character at the cursor, or merges the following line
    /// onto this one when the cursor sits at the end of the line.
    pub fn delete_char(&mut self)
        ensures
            final(self)@ == spec_delete_char(old(self)@),
    {
        if self.cursor.row >= self.buffer.lines.len() {
            return ;
        }
        let row = self.cursor.row;
        let line_len = self.current_line_len();
        if self.cursor.col < line_len {
            let new_line = remove_char_at(&self.buffer.lines[row], self.cursor.col);
            self.buffer.lines[row] = new_line;
            self.dirty = true;
            self.bump_revision();
        } else if row + 1 < self.buffer.lines.len() {
            let next = self.buffer.lines.remove(row + 1);
            let merged = concat_lines(&self.buffer.lines[row], &next);
            self.buffer.lines[row] = merged;
            self.dirty = true;
            self.bump_revision();
            proof {
                let e = old(self)@;
                assert(self@.lines =~~= e.lines.update(
                    e.cursor_row as int,
                    e.lines[e.cursor_row as int] + e.lines[e.cursor_row as int + 1],
                ).remove(e.cursor_row as int + 1));
            }
        }
        self.ensure_cursor_visible();
        proof {
            assert(final(self)@ =~= spec_delete_char(old(self)@));
        }
    }

    /// Replaces the buffer with freshly loaded document text.
    pub fn load_from_string(&mut self, contents: String)
        ensures
            final(self)@ == spec_load(old(self)@, contents@),
    {
        self.buffer = Buffer::from_string(contents);
        self.cursor = Cursor { row: 0, col: 0 };
        self.viewport = Viewport { row_offset: 0, col_offset: 0 };
        self.dirty = false;
        self.revision = 0;
        proof {
            assert(final(self)@ =~= spec_load(old(self)@, contents@));
        }
    }
}

/// The screen row of the status line: one above the bottom, or two when the
/// command line is active; zero when the screen is too small.
pub open spec fn spec_status_row(e: EditorView) -> nat {
    let gutter: nat = if e.cmd_active { 2 } else { 1 };
    if e.screen_height as nat <= gutter {
        0
    } else {
        (e.screen_height as nat - gutter) as nat
    }
}

/// The screen row of the command line: the bottom row.
pub open spec fn spec_command_row(e: EditorView) -> nat {
    if e.screen_height as nat <= 1 {
        0
    } else {
        (e.screen_height as nat - 1) as nat
    }
}

/// A well-formed buffer: at least one line, and no line contains a line
/// break (breaks exist only between lines).
pub open spec fn buffer_wf(lines: Seq<Seq<char>>) -> bool {
    lines.len() >= 1 && forall|i: int| 0 <= i < lines.len() ==> no_newline(#[trigger] lines[i])
}

/// Every line that splitting a document produces is free of line breaks,
/// and at least one line comes out. With `lemma_join_then_split` this gives
/// the round trip: any buffer built by edits (of characters other than a
/// raw line break) serializes and reloads to identical line content.
pub proof fn lemma_split_lines_wf(s: Seq<char>)
    ensures
        buffer_wf(split_lines(s)),
    decreases s.len(),
{
    if s.len() == 0 {
        assert(no_newline(split_lines(s)[0]));
    } else if s[0] == '\n' {
        lemma_split_lines_wf(s.skip(1));
        assert forall|i: int| 0 <= i < split_lines(s).len() implies no_newline(
            #[trigger] split_lines(s)[i],
        ) by {
            if i == 0 {
                assert(no_newline(Seq::<char>::empty()));
            } else {
                assert(split_lines(s)[i] == split_lines(s.skip(1))[i - 1]);
            }
        }
    } else {
        lemma_split_lines_wf(s.skip(1));
        let rest = split_lines(s.skip(1));
        assert forall|i: int| 0 <= i < split_lines(s).len() implies no_newline(
            #[trigger] split_lines(s)[i],
        ) by {
            if i == 0 {
                assert(no_newline(rest[0]));
                assert(split_lines(s)[0] == seq![s[0]] + rest[0]);
            } else {
                assert(split_lines(s)[i] == rest[i]);
            }
        }
    }
}

/// Inserting any character other than a line break keeps the buffer
/// well-formed.
pub proof fn lemma_insert_char_preserves_wf(e: EditorView, c: char)
    requires
        buffer_wf(e.lines),
        e.cursor_row <= e.lines.len(),
        c != '\n',
    ensures
        buffer_wf(spec_insert_char(e, c).lines),
{
    let lines1 = if e.cursor_row >= e.lines.len() {
        e.lines.push(Seq::<char>::empty())
    } else {
        e.lines
    };
    assert(forall|i: int| 0 <= i < lines1.len() ==> no_newline(#[trigger] lines1[i]));
    let line = lines1[e.cursor_row as int];
    let k = if e.cursor_col < line.len() { e.cursor_col as int } else { line.len() as int };
    let newline = line.take(k) + seq![c] + line.skip(k);
    assert(no_newline(newline)) by {
        assert(forall|j: int| 0 <= j < line.take(k).len() ==> line.take(k)[j] != '\n');
        assert(forall|j: int| 0 <= j < line.skip(k).len() ==> line.skip(k)[j] != '\n');
    }
    let lines2 = lines1.update(e.cursor_row as int, newline);
    assert(forall|i: int| 0 <= i < lines2.len() ==> no_newline(#[trigger] lines2[i]));
}

/// Splitting a line keeps the buffer well-formed.
pub proof fn lemma_insert_newline_preserves_wf(e: EditorView)
    requires
        buffer_wf(e.lines),
        e.cursor_row <= e.lines.len(),
    ensures
        buffer_wf(spec_insert_newline(e).lines),
{
    let lines1 = if e.cursor_row >= e.lines.len() {
        e.lines.push(Seq::<char>::empty())
    } else {
        e.lines
    };
    assert(forall|i: int| 0 <= i < lines1.len() ==> no_newline(#[trigger] lines1[i]));
    let line = lines1[e.cursor_row as int];
    let k = if e.cursor_col < line.len() { e.cursor_col as int } else { line.len() as int };
    let lines2 = lines1.update(e.cursor_row as int, line.take(k)).insert(
        e.cursor_row as int + 1,
        line.skip(k),
    );
    assert(no_newline(line.take(k)));
    assert(no_newline(line.skip(k)));
    assert(forall|i: int| 0 <= i < lines2.len() ==> no_newline(#[trigger] lines2[i]));
}

/// Deleting backward keeps the buffer well-formed.
pub proof fn lemma_backspace_preserves_wf(e: EditorView)
    requires
        buffer_wf(e.lines),
        e.cursor_row < e.lines.len() ==> e.cursor_col <= line_len_at(e.lines, e.cursor_row),
    ensures
        buffer_wf(spec_backspace(e).lines),
{
    if e.cursor_row >= e.lines.len() {
    } else if e.cursor_col > 0 {
        let line = e.lines[e.cursor_row as int];
        let newline = line.take(e.cursor_col as int - 1) + line.skip(e.cursor_col as int);
        assert(no_newline(newline));
        let lines2 = e.lines.update(e.cursor_row as int, newline);
        assert(forall|i: int| 0 <= i < lines2.len() ==> no_newline(#[trigger] lines2[i]));
    } else if e.cursor_row > 0 {
        let merged = e.lines[e.cursor_row as int - 1] + e.lines[e.cursor_row as int];
        assert(no_newline(merged));
        let lines2 = e.lines.update(e.cursor_row as int - 1, merged).remove(e.cursor_row as int);
        assert(forall|i: int| 0 <= i < lines2.len() ==> no_newline(#[trigger] lines2[i]));
    }
}

/// Deleting forward keeps the buffer well-formed.
pub proof fn lemma_delete_char_preserves_wf(e: EditorView)
    requires
        buffer_wf(e.lines),
    ensures
        buffer_wf(spec_delete_char(e).lines),
{
    if e.cursor_row >= e.lines.len() {
    } else {
        let line = e.lines[e.cursor_row as int];
        if e.cursor_col < line.len() {
            let newline = line.take(e.cursor_col as int) + line.skip(e.cursor_col as int + 1);
            assert(no_newline(newline));
            let lines2 = e.lines.update(e.cursor_row as int, newline);
            assert(forall|i: int| 0 <= i < lines2.len() ==> no_newline(#[trigger] lines2[i]));
        } else if e.cursor_row + 1 < e.lines.len() {
            let merged = line + e.lines[e.cursor_row as int + 1];
            assert(no_newline(merged));
            let lines2 = e.lines.update(e.cursor_row as int, merged).remove(
                e.cursor_row as int + 1,
            );
            assert(forall|i: int| 0 <= i < lines2.len() ==> no_newline(#[trigger] lines2[i]));
        }
    }
}

/// Round trip at the buffer level: serializing a well-formed buffer and
/// splitting the text again yields exactly the original lines.
pub proof fn lemma_buffer_round_trip(lines: Seq<Seq<char>>)
    requires
        buffer_wf(lines),
    ensures
        split_lines(join_lines(lines)) =~~= lines,
{
    crate::text::lemma_join_then_split(lines);
}

/// Keeping the cursor visible really does: for any cursor, whenever an
/// axis's extent is positive, the cursor lands inside the viewport on that
/// axis.
pub proof fn lemma_ensure_visible_bounds(e: EditorView)
    ensures
        spec_content_height(e) > 0 ==> spec_ensure_visible(e).row_offset <= e.cursor_row
            < spec_ensure_visible(e).row_offset + spec_content_height(e),
        e.screen_width > 0 ==> spec_ensure_visible(e).col_offset <= e.cursor_col
            < spec_ensure_visible(e).col_offset + e.screen_width as nat,
{
}

} // verus!
