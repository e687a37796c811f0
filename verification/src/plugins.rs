//! The input-side handlers: mode switching, command-line editing, cursor
//! motion, insertion, and ex-command interpretation.
//!
//! Every handler's behaviour is given twice: a pure spec step function from
//! editor state and event to new state and result, and an executable method
//! proved equal to it. The dispatch chain in `pipeline` composes the step
//! functions, so short-circuiting can be stated and proved as a law.

use vstd::prelude::*;

use crate::editor::{
    line_len_at, spec_backspace, spec_delete_char, spec_insert_char, spec_insert_newline,
    spec_load, spec_move_down, spec_move_left, spec_move_line_end, spec_move_line_start,
    spec_move_right, spec_move_up, Editor, EditorView, Mode, SaveRequest, SaveRequestView,
};
use crate::event::{Event, EventResult, KeyCode};
use crate::text::{char_count, spec_tokens, spec_trim, split_tokens, str_equal, trim_string};

verus! {

/// Bounds under which every edit a single input event can cause is defined:
/// the cursor row is at most just past the last line, the column lies within
/// the current line, and a tab's four insertions cannot overflow the column.
pub open spec fn cursor_ok(e: EditorView) -> bool {
    &&& e.cursor_row <= e.lines.len()
    &&& (e.cursor_row < e.lines.len() ==> e.cursor_col <= line_len_at(e.lines, e.cursor_row))
    &&& e.cursor_col + 4 <= usize::MAX
}

/// Switches between Normal, Insert and Command mode on Escape, `i` and `:`.
pub struct ModePlugin;

/// What the mode handler does with one event.
pub open spec fn mode_step(e: EditorView, ev: Event) -> (EditorView, EventResult) {
    match ev {
        Event::Key(k) => match k.code {
            KeyCode::Esc => (
                EditorView {
                    mode: Mode::Normal,
                    cmd_active: false,
                    cmd_input: Seq::<char>::empty(),
                    ..e
                },
                EventResult::Consumed,
            ),
            KeyCode::Char(c) => {
                if c == 'i' && e.mode == Mode::Normal {
                    (EditorView { mode: Mode::Insert, ..e }, EventResult::Consumed)
                } else if c == ':' && e.mode == Mode::Normal {
                    (
                        EditorView {
                            mode: Mode::Command,
                            cmd_active: true,
                            cmd_input: Seq::<char>::empty(),
                            ..e
                        },
                        EventResult::Consumed,
                    )
                } else {
                    (e, EventResult::Ignored)
                }
            },
            _ => (e, EventResult::Ignored),
        },
        _ => (e, EventResult::Ignored),
    }
}

impl ModePlugin {
    pub fn on_event(&self, editor: &mut Editor, event: &Event) -> (r: EventResult)
        ensures
            final(editor)@ == mode_step(old(editor)@, *event).0,
            r == mode_step(old(editor)@, *event).1,
    {
        match event {
            Event::Key(k) => {
                match k.code {
                    KeyCode::Esc => {
                        editor.mode = Mode::Normal;
                        editor.command_line.active = false;
                        editor.command_line.input = String::new();
                        proof {
                            assert(editor@ =~= mode_step(old(editor)@, *event).0);
                        }
                        EventResult::Consumed
                    },
                    KeyCode::Char(c) => {
                        if c == 'i' && editor.mode == Mode::Normal {
                            editor.mode = Mode::Insert;
                            proof {
                                assert(editor@ =~= mode_step(old(editor)@, *event).0);
                            }
                            EventResult::Consumed
                        } else if c == ':' && editor.mode == Mode::Normal {
                            editor.mode = Mode::Command;
                            editor.command_line.active = true;
                            editor.command_line.input = String::new();
                            proof {
                                assert(editor@ =~= mode_step(old(editor)@, *event).0);
                            }
                            EventResult::Consumed
                        } else {
                            EventResult::Ignored
                        }
                    },
                    _ => EventResult::Ignored,
                }
            },
            _ => EventResult::Ignored,
        }
    }
}

/// Edits the ex-command input line while Command mode is active, and submits
/// the trimmed command on Enter.
pub struct CommandLinePlugin;

/// What the command-line handler does with one event.
pub open spec fn command_line_step(e: EditorView, ev: Event) -> (EditorView, EventResult) {
    if e.mode != Mode::Command {
        (e, EventResult::Ignored)
    } else {
        match ev {
            Event::Key(k) => match k.code {
                KeyCode::Enter => {
                    let cmd = spec_trim(e.cmd_input);
                    let queue = if cmd.len() > 0 {
                        e.command_queue.push(cmd)
                    } else {
                        e.command_queue
                    };
                    (
                        EditorView {
                            cmd_input: Seq::<char>::empty(),
                            cmd_active: false,
                            mode: Mode::Normal,
                            command_queue: queue,
                            ..e
                        },
                        EventResult::Consumed,
                    )
                },
                KeyCode::Backspace => {
                    let input = if e.cmd_input.len() > 0 {
                        e.cmd_input.drop_last()
                    } else {
                        e.cmd_input
                    };
                    (EditorView { cmd_input: input, ..e }, EventResult::Consumed)
                },
                KeyCode::Char(c) => {
                    if k.ctrl || k.alt {
                        (e, EventResult::Ignored)
                    } else {
                        (EditorView { cmd_input: e.cmd_input.push(c), ..e }, EventResult::Consumed)
                    }
                },
                _ => (e, EventResult::Ignored),
            },
            _ => (e, EventResult::Ignored),
        }
    }
}

impl CommandLinePlugin {
    pub fn on_event(&self, editor: &mut Editor, event: &Event) -> (r: EventResult)
        ensures
            final(editor)@ == command_line_step(old(editor)@, *event).0,
            r == command_line_step(old(editor)@, *event).1,
    {
        if editor.mode != Mode::Command {
            return EventResult::Ignored;
        }
        match event {
            Event::Key(k) => {
                match k.code {
                    KeyCode::Enter => {
                        let command = trim_string(&editor.command_line.input);
                        editor.command_line.input = String::new();
                        editor.command_line.active = false;
                        editor.mode = Mode::Normal;
                        let n = char_count(&command);
                        if n > 0 {
                            editor.push_command(command);
                        }
                        proof {
                            assert(editor@ =~= command_line_step(old(editor)@, *event).0);
                        }
                        EventResult::Consumed
                    },
                    KeyCode::Backspace => {
                        let n = char_count(&editor.command_line.input);
                        if n > 0 {
                            let shorter = editor.command_line.input.as_str().substring_char(
                                0,
                                n - 1,
                            ).to_owned();
                            proof {
                                assert(shorter@ =~= old(editor)@.cmd_input.drop_last());
                            }
                            editor.command_line.input = shorter;
                        }
                        proof {
                            assert(editor@ =~= command_line_step(old(editor)@, *event).0);
                        }
                        EventResult::Consumed
                    },
                    KeyCode::Char(c) => {
                        if k.ctrl || k.alt {
                            return EventResult::Ignored;
                        }
                        crate::text::push_char(&mut editor.command_line.input, c);
                        proof {
                            assert(editor@ =~= command_line_step(old(editor)@, *event).0);
                        }
                        EventResult::Consumed
                    },
                    _ => EventResult::Ignored,
                }
            },
            _ => EventResult::Ignored,
        }
    }
}

/// Moves the cursor and deletes under it while in Normal mode.
pub struct MotionPlugin;

/// What the motion handler does with one event.
pub open spec fn motion_step(e: EditorView, ev: Event) -> (EditorView, EventResult) {
    if e.mode != Mode::Normal {
        (e, EventResult::Ignored)
    } else {
        match ev {
            Event::Key(k) => {
                if k.ctrl {
                    (e, EventResult::Ignored)
                } else {
                    match k.code {
                        KeyCode::Left => (spec_move_left(e), EventResult::Consumed),
                        KeyCode::Right => (spec_move_right(e), EventResult::Consumed),
                        KeyCode::Up => (spec_move_up(e), EventResult::Consumed),
                        KeyCode::Down => (spec_move_down(e), EventResult::Consumed),
                        KeyCode::Char(c) => {
                            if c == 'h' {
                                (spec_move_left(e), EventResult::Consumed)
                            } else if c == 'l' {
                                (spec_move_right(e), EventResult::Consumed)
                            } else if c == 'k' {
                                (spec_move_up(e), EventResult::Consumed)
                            } else if c == 'j' {
                                (spec_move_down(e), EventResult::Consumed)
                            } else if c == '0' {
                                (spec_move_line_start(e), EventResult::Consumed)
                            } else if c == '$' {
                                (spec_move_line_end(e), EventResult::Consumed)
                            } else if c == 'x' {
                                (spec_delete_char(e), EventResult::Consumed)
                            } else {
                                (e, EventResult::Ignored)
                            }
                        },
                        _ => (e, EventResult::Ignored),
                    }
                }
            },
            _ => (e, EventResult::Ignored),
        }
    }
}

impl MotionPlugin {
    pub fn on_event(&self, editor: &mut Editor, event: &Event) -> (r: EventResult)
        ensures
            final(editor)@ == motion_step(old(editor)@, *event).0,
            r == motion_step(old(editor)@, *event).1,
    {
        if editor.mode != Mode::Normal {
            return EventResult::Ignored;
        }
        match event {
            Event::Key(k) => {
                if k.ctrl {
                    return EventResult::Ignored;
                }
                match k.code {
                    KeyCode::Left => {
                        editor.move_left();
                        EventResult::Consumed
                    },
                    KeyCode::Right => {
                        editor.move_right();
                        EventResult::Consumed
                    },
                    KeyCode::Up => {
                        editor.move_up();
                        EventResult::Consumed
                    },
                    KeyCode::Down => {
                        editor.move_down();
                        EventResult::Consumed
                    },
                    KeyCode::Char(c) => {
                        if c == 'h' {
                            editor.move_left();
                            EventResult::Consumed
                        } else if c == 'l' {
                            editor.move_right();
                            EventResult::Consumed
                        } else if c == 'k' {
                            editor.move_up();
                            EventResult::Consumed
                        } else if c == 'j' {
                            editor.move_down();
                            EventResult::Consumed
                        } else if c == '0' {
                            editor.move_line_start();
                            EventResult::Consumed
                        } else if c == '$' {
                            editor.move_line_end();
                            EventResult::Consumed
                        } else if c == 'x' {
                            editor.delete_char();
                            EventResult::Consumed
                        } else {
                            EventResult::Ignored
                        }
                    },
                    _ => EventResult::Ignored,
                }
            },
            _ => EventResult::Ignored,
        }
    }
}

/// Inserts text while in Insert mode; arrows still move the cursor.
pub struct InsertPlugin;

/// Four spaces inserted in sequence, as a tab key produces.
pub open spec fn spec_insert_tab(e: EditorView) -> EditorView {
    spec_insert_char(spec_insert_char(spec_insert_char(spec_insert_char(e, ' '), ' '), ' '), ' ')
}

/// What the insert handler does with one event.
pub open spec fn insert_step(e: EditorView, ev: Event) -> (EditorView, EventResult) {
    if e.mode != Mode::Insert {
        (e, EventResult::Ignored)
    } else {
        match ev {
            Event::Key(k) => {
                if k.ctrl || k.alt {
                    (e, EventResult::Ignored)
                } else {
                    match k.code {
                        KeyCode::Char(c) => (spec_insert_char(e, c), EventResult::Consumed),
                        KeyCode::Enter => (spec_insert_newline(e), EventResult::Consumed),
                        KeyCode::Backspace => (spec_backspace(e), EventResult::Consumed),
                        KeyCode::Delete => (spec_delete_char(e), EventResult::Consumed),
                        KeyCode::Tab => (spec_insert_tab(e), EventResult::Consumed),
                        KeyCode::Left => (spec_move_left(e), EventResult::Consumed),
                        KeyCode::Right => (spec_move_right(e), EventResult::Consumed),
                        KeyCode::Up => (spec_move_up(e), EventResult::Consumed),
                        KeyCode::Down => (spec_move_down(e), EventResult::Consumed),
                        _ => (e, EventResult::Ignored),
                    }
                }
            },
            _ => (e, EventResult::Ignored),
        }
    }
}

impl InsertPlugin {
    pub fn on_event(&self, editor: &mut Editor, event: &Event) -> (r: EventResult)
        requires
            cursor_ok(old(editor)@),
        ensures
            final(editor)@ == insert_step(old(editor)@, *event).0,
            r == insert_step(old(editor)@, *event).1,
    {
        if editor.mode != Mode::Insert {
            return EventResult::Ignored;
        }
        match event {
            Event::Key(k) => {
                if k.ctrl || k.alt {
                    return EventResult::Ignored;
                }
                match k.code {
                    KeyCode::Char(c) => {
                        editor.insert_char(c);
                        EventResult::Consumed
                    },
                    KeyCode::Enter => {
                        editor.insert_newline();
                        EventResult::Consumed
                    },
                    KeyCode::Backspace => {
                        editor.backspace();
                        EventResult::Consumed
                    },
                    KeyCode::Delete => {
                        editor.delete_char();
                        EventResult::Consumed
                    },
                    KeyCode::Tab => {
                        editor.insert_char(' ');
                        editor.insert_char(' ');
                        editor.insert_char(' ');
                        editor.insert_char(' ');
                        EventResult::Consumed
                    },
                    KeyCode::Left => {
                        editor.move_left();
                        EventResult::Consumed
                    },
                    KeyCode::Right => {
                        editor.move_right();
                        EventResult::Consumed
                    },
                    KeyCode::Up => {
                        editor.move_up();
                        EventResult::Consumed
                    },
                    KeyCode::Down => {
                        editor.move_down();
                        EventResult::Consumed
                    },
                    _ => EventResult::Ignored,
                }
            },
            _ => EventResult::Ignored,
        }
    }
}

/// How a load attempt ended; the caller reads the file (or finds none) and
/// hands the outcome in as plain values.
#[derive(Debug, Clone)]
pub enum LoadOutcome {
    /// The editor has no file identity; nothing was read.
    NoPath,
    /// The document was read with this content.
    Read(String),
    /// No file exists at the path: a new file.
    NotFound,
    /// Reading failed with this message.
    Failed(String),
}

impl LoadOutcome {
    pub open spec fn view_outcome(&self) -> LoadOutcomeView {
        match self {
            LoadOutcome::NoPath => LoadOutcomeView::NoPath,
            LoadOutcome::Read(s) => LoadOutcomeView::Read(s@),
            LoadOutcome::NotFound => LoadOutcomeView::NotFound,
            LoadOutcome::Failed(s) => LoadOutcomeView::Failed(s@),
        }
    }
}

/// The pure model of a load outcome.
pub enum LoadOutcomeView {
    NoPath,
    Read(Seq<char>),
    NotFound,
    Failed(Seq<char>),
}

/// Interprets ex-commands: save, save-and-quit, quit and forced quit.
pub struct FileCommandPlugin;

/// What quitting does: refused with a warning while unsaved changes exist,
/// unless forced.
pub open spec fn spec_command_quit(e: EditorView, force: bool) -> EditorView {
    if e.dirty && !force {
        EditorView { status: "No write since last change (add ! to override)"@, ..e }
    } else {
        EditorView { should_quit: true, ..e }
    }
}

/// What a save request does: records the target path (the argument, or the
/// current file identity) for the caller to write, or reports the lack of
/// any path.
pub open spec fn spec_request_save(e: EditorView, toks: Seq<Seq<char>>, quit_after: bool) -> EditorView {
    let path = if toks.len() >= 2 {
        Some(toks[1])
    } else {
        e.file_path
    };
    match path {
        Some(p) => EditorView {
            pending_save: Some(SaveRequestView { path: p, quit_after }),
            ..e
        },
        None => EditorView { status: "No file name"@, ..e },
    }
}

/// What the ex-command handler does with one command string. The vocabulary
/// is closed: an empty or unrecognized command is consumed with no effect.
pub open spec fn file_command_step(e: EditorView, cmd: Seq<char>) -> (EditorView, EventResult) {
    let toks = spec_tokens(cmd);
    if toks.len() == 0 {
        (e, EventResult::Consumed)
    } else if toks[0] == "w"@ {
        (spec_request_save(e, toks, false), EventResult::Consumed)
    } else if toks[0] == "wq"@ || toks[0] == "x"@ {
        (spec_request_save(e, toks, true), EventResult::Consumed)
    } else if toks[0] == "q"@ {
        (spec_command_quit(e, false), EventResult::Consumed)
    } else if toks[0] == "q!"@ {
        (spec_command_quit(e, true), EventResult::Consumed)
    } else {
        (e, EventResult::Consumed)
    }
}

/// What reporting a finished save does: on success the file identity and
/// status update, the buffer is clean, and a requested quit takes effect;
/// on failure only the status changes and the dirty flag stays.
pub open spec fn spec_finish_save(
    e: EditorView,
    req: SaveRequestView,
    error: Option<Seq<char>>,
) -> EditorView {
    match error {
        None => EditorView {
            file_path: Some(req.path),
            dirty: false,
            status: "Wrote "@ + req.path,
            should_quit: e.should_quit || req.quit_after,
            ..e
        },
        Some(msg) => EditorView { status: "Write failed: "@ + msg, ..e },
    }
}

/// What reporting a finished load does: read content replaces the buffer; a
/// missing file starts a fresh one; a failure only reports.
pub open spec fn spec_finish_load(e: EditorView, outcome: LoadOutcomeView) -> EditorView {
    match outcome {
        LoadOutcomeView::NoPath => e,
        LoadOutcomeView::Read(contents) => match e.file_path {
            Some(p) => EditorView { status: "Opened "@ + p, ..spec_load(e, contents) },
            None => e,
        },
        LoadOutcomeView::NotFound => match e.file_path {
            Some(p) => EditorView { status: "New file "@ + p, ..e },
            None => e,
        },
        LoadOutcomeView::Failed(msg) => EditorView { status: "Open failed: "@ + msg, ..e },
    }
}

/// The quit guard: with unsaved changes an unforced quit does not quit and
/// leaves exactly the warning status; a forced quit always quits, and so
/// does an unforced one on a clean buffer.
pub proof fn lemma_quit_guard(e: EditorView)
    ensures
        e.dirty ==> spec_command_quit(e, false) == (EditorView {
            status: "No write since last change (add ! to override)"@,
            ..e
        }),
        spec_command_quit(e, true).should_quit,
        !e.dirty ==> spec_command_quit(e, false).should_quit,
{
}

impl FileCommandPlugin {
    /// Quit, guarded by the dirty flag unless forced.
    pub fn command_quit(editor: &mut Editor, force: bool)
        ensures
            final(editor)@ == spec_command_quit(old(editor)@, force),
    {
        if editor.dirty && !force {
            editor.set_status("No write since last change (add ! to override)".to_owned());
        } else {
            editor.should_quit = true;
            proof {
                assert(editor@ =~= spec_command_quit(old(editor)@, force));
            }
        }
    }

    fn request_save(editor: &mut Editor, toks: &Vec<String>, quit_after: bool)
        ensures
            final(editor)@ == spec_request_save(old(editor)@, toks.deep_view(), quit_after),
    {
        let path: Option<String> = if toks.len() >= 2 {
            Some(toks[1].clone())
        } else {
            match &editor.file_path {
                Some(p) => Some(p.clone()),
                None => None,
            }
        };
        match path {
            Some(p) => {
                editor.pending_save = Some(SaveRequest { path: p, quit_after });
                proof {
                    assert(editor@ =~= spec_request_save(old(editor)@, toks.deep_view(), quit_after));
                }
            },
            None => {
                editor.set_status("No file name".to_owned());
                proof {
                    assert(editor@ =~= spec_request_save(old(editor)@, toks.deep_view(), quit_after));
                }
            },
        }
    }

    pub fn on_command(&self, editor: &mut Editor, command: &String) -> (r: EventResult)
        ensures
            final(editor)@ == file_command_step(old(editor)@, command@).0,
            r == file_command_step(old(editor)@, command@).1,
    {
        let toks = split_tokens(command);
        if toks.len() == 0 {
            return EventResult::Consumed;
        }
        proof {
            assert(toks.deep_view()[0] == toks[0]@);
        }
        if str_equal(&toks[0], "w") {
            Self::request_save(editor, &toks, false);
        } else if str_equal(&toks[0], "wq") || str_equal(&toks[0], "x") {
            Self::request_save(editor, &toks, true);
        } else if str_equal(&toks[0], "q") {
            Self::command_quit(editor, false);
        } else if str_equal(&toks[0], "q!") {
            Self::command_quit(editor, true);
        }
        EventResult::Consumed
    }

    /// Applies the result of the save that a queued request asked for.
    pub fn finish_save(editor: &mut Editor, req: SaveRequest, error: Option<String>)
        ensures
            final(editor)@ == spec_finish_save(old(editor)@, req@, error.deep_view()),
    {
        match error {
            None => {
                let mut msg = "Wrote ".to_owned();
                msg.append(req.path.as_str());
                editor.file_path = Some(req.path);
                editor.dirty = false;
                editor.status = msg;
                if req.quit_after {
                    editor.should_quit = true;
                }
                proof {
                    assert(editor@ =~= spec_finish_save(old(editor)@, req@, None));
                }
            },
            Some(err) => {
                let mut msg = "Write failed: ".to_owned();
                msg.append(err.as_str());
                editor.status = msg;
                proof {
                    assert(editor@ =~= spec_finish_save(old(editor)@, req@, Some(err@)));
                }
            },
        }
    }

    /// Applies the outcome of the initial load of the document.
    pub fn finish_load(&self, editor: &mut Editor, outcome: LoadOutcome)
        ensures
            final(editor)@ == spec_finish_load(old(editor)@, outcome.view_outcome()),
    {
        match outcome {
            LoadOutcome::NoPath => {},
            LoadOutcome::Read(contents) => {
                let msg: Option<String> = match &editor.file_path {
                    Some(p) => {
                        let mut m = "Opened ".to_owned();
                        m.append(p.as_str());
                        Some(m)
                    },
                    None => None,
                };
                match msg {
                    Some(m) => {
                        editor.load_from_string(contents);
                        editor.status = m;
                        proof {
                            assert(editor@ =~= spec_finish_load(
                                old(editor)@,
                                LoadOutcomeView::Read(contents@),
                            ));
                        }
                    },
                    None => {},
                }
            },
            LoadOutcome::NotFound => {
                match &editor.file_path {
                    Some(p) => {
                        let mut m = "New file ".to_owned();
                        m.append(p.as_str());
                        editor.status = m;
                        proof {
                            assert(editor@ =~= spec_finish_load(
                                old(editor)@,
                                LoadOutcomeView::NotFound,
                            ));
                        }
                    },
                    None => {},
                }
            },
            LoadOutcome::Failed(err) => {
                let mut m = "Open failed: ".to_owned();
                m.append(err.as_str());
                editor.status = m;
                proof {
                    assert(editor@ =~= spec_finish_load(
                        old(editor)@,
                        LoadOutcomeView::Failed(err@),
                    ));
                }
            },
        }
    }
}

} // verus!
