//! The ordered handler pipeline: events and commands run through the
//! handlers in registration order and stop at the first one that consumes
//! them; rendering runs every handler, unconditionally, in the same order.
//!
//! Dispatch is modelled as a fold of the handlers' pure step functions, so
//! the short-circuit rule is itself a proved law: once a handler consumes,
//! the handlers registered after it contribute nothing.

use vstd::prelude::*;

use crate::editor::{spec_content_height, spec_set_screen_size, Editor, EditorView};
use crate::event::{Event, EventResult};
use crate::highlight::{spec_needs_rehighlight, spec_slice_spans, SyntaxHighlightPlugin};
use crate::plugins::{
    command_line_step, cursor_ok, file_command_step, insert_step, mode_step, motion_step,
    spec_finish_load, CommandLinePlugin, FileCommandPlugin, InsertPlugin, LoadOutcome, ModePlugin,
    MotionPlugin,
};
use crate::render::{
    spec_cursor_placement, spec_frame_row, BufferRenderPlugin, CommandLineRenderPlugin,
    CursorRenderPlugin, RenderContext, StatusBarPlugin, StyledSpan,
};

verus! {

/// The capabilities a handler position can hold, one per registered handler.
#[derive(Debug, Clone, Copy, PartialEq, Eq, Structural)]
pub enum HandlerKind {
    FileCommand,
    Mode,
    CommandLine,
    Motion,
    Insert,
    BufferRender,
    SyntaxHighlight,
    StatusBar,
    CommandLineRender,
    CursorRender,
}

/// What one handler does with an event. Handlers that do not listen to
/// events leave the editor unchanged and pass the event on.
pub open spec fn event_step(k: HandlerKind, e: EditorView, ev: Event) -> (EditorView, EventResult) {
    match k {
        HandlerKind::Mode => mode_step(e, ev),
        HandlerKind::CommandLine => command_line_step(e, ev),
        HandlerKind::Motion => motion_step(e, ev),
        HandlerKind::Insert => insert_step(e, ev),
        _ => (e, EventResult::Ignored),
    }
}

/// What one handler does with a command string.
pub open spec fn command_step(k: HandlerKind, e: EditorView, cmd: Seq<char>) -> (
    EditorView,
    EventResult,
) {
    match k {
        HandlerKind::FileCommand => file_command_step(e, cmd),
        _ => (e, EventResult::Ignored),
    }
}

/// The event dispatch chain: handlers run in order until the first
/// `Consumed`; the result carries the final editor state and the index of
/// the consumer, if any.
pub open spec fn run_event_chain(ks: Seq<HandlerKind>, e: EditorView, ev: Event) -> (
    EditorView,
    Option<int>,
)
    decreases ks.len(),
{
    if ks.len() == 0 {
        (e, None)
    } else {
        let head = event_step(ks[0], e, ev);
        if head.1 == EventResult::Consumed {
            (head.0, Some(0int))
        } else {
            let rest = run_event_chain(ks.skip(1), head.0, ev);
            (
                rest.0,
                match rest.1 {
                    Some(i) => Some(i + 1),
                    None => None,
                },
            )
        }
    }
}

/// The command dispatch chain, with the same short-circuit rule.
pub open spec fn run_command_chain(ks: Seq<HandlerKind>, e: EditorView, cmd: Seq<char>) -> (
    EditorView,
    Option<int>,
)
    decreases ks.len(),
{
    if ks.len() == 0 {
        (e, None)
    } else {
        let head = command_step(ks[0], e, cmd);
        if head.1 == EventResult::Consumed {
            (head.0, Some(0int))
        } else {
            let rest = run_command_chain(ks.skip(1), head.0, cmd);
            (
                rest.0,
                match rest.1 {
                    Some(i) => Some(i + 1),
                    None => None,
                },
            )
        }
    }
}

/// Dispatch short-circuit, one reading: when some handler of `ks` consumes
/// the event, registering any further handlers after them changes neither
/// the editor nor the outcome — the later handlers never see the event.
pub proof fn lemma_event_chain_short_circuit(
    ks: Seq<HandlerKind>,
    more: Seq<HandlerKind>,
    e: EditorView,
    ev: Event,
)
    requires
        run_event_chain(ks, e, ev).1 is Some,
    ensures
        run_event_chain(ks + more, e, ev) == run_event_chain(ks, e, ev),
    decreases ks.len(),
{
    assert(ks.len() > 0);
    assert((ks + more)[0] == ks[0]);
    let head = event_step(ks[0], e, ev);
    if head.1 == EventResult::Consumed {
        assert(run_event_chain(ks + more, e, ev) == run_event_chain(ks, e, ev));
    } else {
        assert((ks + more).skip(1) =~= ks.skip(1) + more);
        lemma_event_chain_short_circuit(ks.skip(1), more, head.0, ev);
    }
}

/// Dispatch short-circuit, second reading: when the consumer sits at index
/// `i`, the whole chain behaves exactly like the chain cut off right after
/// the consumer.
pub proof fn lemma_event_chain_stops_at_consumer(
    ks: Seq<HandlerKind>,
    e: EditorView,
    ev: Event,
    i: int,
)
    requires
        run_event_chain(ks, e, ev).1 == Some(i),
    ensures
        0 <= i < ks.len(),
        run_event_chain(ks.take(i + 1), e, ev) == run_event_chain(ks, e, ev),
    decreases ks.len(),
{
    assert(ks.len() > 0);
    let head = event_step(ks[0], e, ev);
    if head.1 == EventResult::Consumed {
        assert(ks.take(1)[0] == ks[0]);
        assert(run_event_chain(ks.take(i + 1), e, ev) == run_event_chain(ks, e, ev));
    } else {
        let rest = run_event_chain(ks.skip(1), head.0, ev);
        assert(rest.1 == Some(i - 1));
        lemma_event_chain_stops_at_consumer(ks.skip(1), head.0, ev, i - 1);
        assert(ks.take(i + 1)[0] == ks[0]);
        assert(ks.take(i + 1).skip(1) =~= ks.skip(1).take(i));
    }
}

/// The same short-circuit law for command dispatch.
pub proof fn lemma_command_chain_short_circuit(
    ks: Seq<HandlerKind>,
    more: Seq<HandlerKind>,
    e: EditorView,
    cmd: Seq<char>,
)
    requires
        run_command_chain(ks, e, cmd).1 is Some,
    ensures
        run_command_chain(ks + more, e, cmd) == run_command_chain(ks, e, cmd),
    decreases ks.len(),
{
    assert(ks.len() > 0);
    assert((ks + more)[0] == ks[0]);
    let head = command_step(ks[0], e, cmd);
    if head.1 == EventResult::Consumed {
        assert(run_command_chain(ks + more, e, cmd) == run_command_chain(ks, e, cmd));
    } else {
        assert((ks + more).skip(1) =~= ks.skip(1) + more);
        lemma_command_chain_short_circuit(ks.skip(1), more, head.0, cmd);
    }
}

/// True of handler positions that never react to events.
pub open spec fn event_passive(k: HandlerKind) -> bool {
    match k {
        HandlerKind::Mode => false,
        HandlerKind::CommandLine => false,
        HandlerKind::Motion => false,
        HandlerKind::Insert => false,
        _ => true,
    }
}

/// A chain of handlers that do not listen to events passes every event
/// through unchanged.
pub proof fn lemma_event_chain_passive(ks: Seq<HandlerKind>, e: EditorView, ev: Event)
    requires
        forall|i: int| 0 <= i < ks.len() ==> event_passive(#[trigger] ks[i]),
    ensures
        run_event_chain(ks, e, ev) == (e, None::<int>),
    decreases ks.len(),
{
    if ks.len() > 0 {
        assert(event_step(ks[0], e, ev) == (e, EventResult::Ignored));
        assert(forall|i: int| 0 <= i < ks.skip(1).len() ==> event_passive(#[trigger] ks.skip(1)[i]));
        lemma_event_chain_passive(ks.skip(1), e, ev);
    }
}

/// True of handler positions that never react to commands.
pub open spec fn command_passive(k: HandlerKind) -> bool {
    !(k == HandlerKind::FileCommand)
}

/// A chain of handlers that do not listen to commands passes every command
/// through unchanged.
pub proof fn lemma_command_chain_passive(ks: Seq<HandlerKind>, e: EditorView, cmd: Seq<char>)
    requires
        forall|i: int| 0 <= i < ks.len() ==> command_passive(#[trigger] ks[i]),
    ensures
        run_command_chain(ks, e, cmd) == (e, None::<int>),
    decreases ks.len(),
{
    if ks.len() > 0 {
        assert(command_step(ks[0], e, cmd) == (e, EventResult::Ignored));
        assert(forall|i: int|
            0 <= i < ks.skip(1).len() ==> command_passive(#[trigger] ks.skip(1)[i]));
        lemma_command_chain_passive(ks.skip(1), e, cmd);
    }
}

/// The fixed registration order of the editor's handlers.
pub open spec fn registration_order() -> Seq<HandlerKind> {
    seq![
        HandlerKind::FileCommand,
        HandlerKind::Mode,
        HandlerKind::CommandLine,
        HandlerKind::Motion,
        HandlerKind::Insert,
        HandlerKind::BufferRender,
        HandlerKind::SyntaxHighlight,
        HandlerKind::StatusBar,
        HandlerKind::CommandLineRender,
        HandlerKind::CursorRender,
    ]
}

/// The handlers, owned by the driving loop, in registration order.
pub struct Pipeline {
    pub file_command: FileCommandPlugin,
    pub mode: ModePlugin,
    pub command_line: CommandLinePlugin,
    pub motion: MotionPlugin,
    pub insert: InsertPlugin,
    pub buffer_render: BufferRenderPlugin,
    pub syntax: SyntaxHighlightPlugin,
    pub status_bar: StatusBarPlugin,
    pub command_line_render: CommandLineRenderPlugin,
    pub cursor_render: CursorRenderPlugin,
}

impl Pipeline {
    /// The standard pipeline with a fresh highlight cache.
    pub fn new() -> (p: Pipeline)
        ensures
            p.syntax.cached_spans@.len() == 0,
            p.syntax.last_revision == u64::MAX,
            p.syntax.last_path is None,
            p.syntax.recompute_count == 0,
    {
        Pipeline {
            file_command: FileCommandPlugin,
            mode: ModePlugin,
            command_line: CommandLinePlugin,
            motion: MotionPlugin,
            insert: InsertPlugin,
            buffer_render: BufferRenderPlugin,
            syntax: SyntaxHighlightPlugin::new(),
            status_bar: StatusBarPlugin,
            command_line_render: CommandLineRenderPlugin,
            cursor_render: CursorRenderPlugin,
        }
    }

    /// Runs the handlers once, in registration order, before the first
    /// render: the file handler applies the initial load outcome.
    pub fn init(&self, editor: &mut Editor, load: LoadOutcome)
        ensures
            final(editor)@ == spec_finish_load(old(editor)@, load.view_outcome()),
    {
        self.file_command.finish_load(editor, load);
    }

    /// Offers the event to each handler in registration order and stops at
    /// the first `Consumed`: exactly the event chain over the registration
    /// order.
    #[verifier::rlimit(100)]
    pub fn handle_event(&self, editor: &mut Editor, event: &Event) -> (r: EventResult)
        requires
            cursor_ok(old(editor)@),
        ensures
            final(editor)@ == run_event_chain(registration_order(), old(editor)@, *event).0,
            (r == EventResult::Consumed) == (run_event_chain(
                registration_order(),
                old(editor)@,
                *event,
            ).1 is Some),
    {
        let ghost order = registration_order();
        let ghost e0 = editor@;
        let ghost ev = *event;
        let ghost tail1 = order.skip(1);
        let ghost tail2 = tail1.skip(1);
        let ghost tail3 = tail2.skip(1);
        let ghost tail4 = tail3.skip(1);
        let ghost tail5 = tail4.skip(1);
        proof {
            assert(order[0] == HandlerKind::FileCommand);
            assert(tail1[0] == HandlerKind::Mode);
            assert(tail2[0] == HandlerKind::CommandLine);
            assert(tail3[0] == HandlerKind::Motion);
            assert(tail4[0] == HandlerKind::Insert);
            assert(event_step(order[0], e0, ev) == (e0, EventResult::Ignored));
            assert(run_event_chain(order, e0, ev).0 == run_event_chain(tail1, e0, ev).0);
            assert(run_event_chain(order, e0, ev).1 is Some <==> run_event_chain(
                tail1,
                e0,
                ev,
            ).1 is Some);
        }
        let r = self.mode.on_event(editor, event);
        if matches!(r, EventResult::Consumed) {
            proof {
                assert(run_event_chain(tail1, e0, ev) == (editor@, Some(0int)));
            }
            return EventResult::Consumed;
        }
        proof {
            assert(editor@ == e0);
            assert(run_event_chain(tail1, e0, ev).0 == run_event_chain(tail2, e0, ev).0);
            assert(run_event_chain(tail1, e0, ev).1 is Some <==> run_event_chain(
                tail2,
                e0,
                ev,
            ).1 is Some);
        }
        let r = self.command_line.on_event(editor, event);
        if matches!(r, EventResult::Consumed) {
            proof {
                assert(run_event_chain(tail2, e0, ev) == (editor@, Some(0int)));
            }
            return EventResult::Consumed;
        }
        proof {
            assert(editor@ == e0);
            assert(run_event_chain(tail2, e0, ev).0 == run_event_chain(tail3, e0, ev).0);
            assert(run_event_chain(tail2, e0, ev).1 is Some <==> run_event_chain(
                tail3,
                e0,
                ev,
            ).1 is Some);
        }
        let r = self.motion.on_event(editor, event);
        if matches!(r, EventResult::Consumed) {
            proof {
                assert(run_event_chain(tail3, e0, ev) == (editor@, Some(0int)));
            }
            return EventResult::Consumed;
        }
        proof {
            assert(editor@ == e0);
            assert(run_event_chain(tail3, e0, ev).0 == run_event_chain(tail4, e0, ev).0);
            assert(run_event_chain(tail3, e0, ev).1 is Some <==> run_event_chain(
                tail4,
                e0,
                ev,
            ).1 is Some);
        }
        let r = self.insert.on_event(editor, event);
        if matches!(r, EventResult::Consumed) {
            proof {
                assert(run_event_chain(tail4, e0, ev) == (editor@, Some(0int)));
            }
            return EventResult::Consumed;
        }
        proof {
            assert(editor@ == e0);
            assert(tail5 =~= seq![
                HandlerKind::BufferRender,
                HandlerKind::SyntaxHighlight,
                HandlerKind::StatusBar,
                HandlerKind::CommandLineRender,
                HandlerKind::CursorRender,
            ]);
            assert(forall|i: int| 0 <= i < tail5.len() ==> event_passive(#[trigger] tail5[i]));
            lemma_event_chain_passive(tail5, e0, ev);
            assert(run_event_chain(tail4, e0, ev).0 == run_event_chain(tail5, e0, ev).0);
            assert(run_event_chain(tail4, e0, ev).1 is Some <==> run_event_chain(
                tail5,
                e0,
                ev,
            ).1 is Some);
        }
        EventResult::Ignored
    }

    /// Updates the screen geometry when the event is a resize — the resize
    /// is still passed through the whole chain afterwards — then dispatches
    /// the event.
    pub fn process_event(&self, editor: &mut Editor, event: &Event) -> (r: EventResult)
        requires
            cursor_ok(old(editor)@),
        ensures
            ({
                let e1 = match *event {
                    Event::Resize(w, h) => spec_set_screen_size(old(editor)@, w, h),
                    _ => old(editor)@,
                };
                &&& final(editor)@ == run_event_chain(registration_order(), e1, *event).0
                &&& (r == EventResult::Consumed) == (run_event_chain(
                    registration_order(),
                    e1,
                    *event,
                ).1 is Some)
            }),
    {
        match event {
            Event::Resize(w, h) => {
                editor.set_screen_size(*w, *h);
                proof {
                    assert(cursor_ok(editor@));
                }
            },
            _ => {},
        }
        self.handle_event(editor, event)
    }

    /// Offers the command to each handler in registration order and stops
    /// at the first `Consumed`: exactly the command chain over the
    /// registration order.
    pub fn handle_command(&self, editor: &mut Editor, command: &String) -> (r: EventResult)
        ensures
            final(editor)@ == run_command_chain(registration_order(), old(editor)@, command@).0,
            (r == EventResult::Consumed) == (run_command_chain(
                registration_order(),
                old(editor)@,
                command@,
            ).1 is Some),
    {
        let ghost order = registration_order();
        let r = self.file_command.on_command(editor, command);
        proof {
            assert(order[0] == HandlerKind::FileCommand);
            assert(order.skip(1) =~= seq![
                HandlerKind::Mode,
                HandlerKind::CommandLine,
                HandlerKind::Motion,
                HandlerKind::Insert,
                HandlerKind::BufferRender,
                HandlerKind::SyntaxHighlight,
                HandlerKind::StatusBar,
                HandlerKind::CommandLineRender,
                HandlerKind::CursorRender,
            ]);
            if r != EventResult::Consumed {
                let tail = order.skip(1);
                assert(forall|i: int|
                    0 <= i < tail.len() ==> command_passive(#[trigger] tail[i]));
                lemma_command_chain_passive(tail, editor@, command@);
            }
        }
        r
    }

    /// The full render pass: every handler runs, unconditionally, in
    /// registration order, into one fresh surface sized to the screen. The
    /// input handlers draw nothing; the buffer, highlight, status, command
    /// line and cursor handlers each write their part, later writes
    /// overlaying earlier ones.
    pub fn render_frame(&mut self, editor: &Editor) -> (ctx: RenderContext)
        requires
            editor@.cursor_row + 1 <= u64::MAX,
            editor@.cursor_col + 1 <= u64::MAX,
            editor@.cmd_input.len() + 1 <= usize::MAX,
        ensures
            ctx@.width == editor@.screen_width,
            ctx@.height == editor@.screen_height,
            final(self).syntax.last_revision == editor@.revision,
            final(self).syntax.last_path.deep_view() == editor@.file_path,
            final(self).syntax.cached_spans@.len() == editor@.lines.len(),
            spec_needs_rehighlight(
                editor@,
                old(self).syntax.last_revision,
                old(self).syntax.last_path.deep_view(),
                old(self).syntax.cached_spans@.len(),
            ) ==> final(self).syntax.recompute_count == crate::editor::spec_bump(
                old(self).syntax.recompute_count,
            ),
            !spec_needs_rehighlight(
                editor@,
                old(self).syntax.last_revision,
                old(self).syntax.last_path.deep_view(),
                old(self).syntax.cached_spans@.len(),
            ) ==> final(self).syntax.recompute_count == old(self).syntax.recompute_count
                && final(self).syntax.cached_spans == old(self).syntax.cached_spans,
            ctx@.lines.len() == editor@.screen_height as nat,
            forall|i: int|
                0 <= i < editor@.screen_height as int ==> ctx@.lines[i] == spec_frame_row(
                    editor@,
                    i,
                ),
            ctx@.cursor == spec_cursor_placement(
                editor@,
                editor@.screen_width,
                editor@.screen_height,
            ),
            ctx@.spans.len() == editor@.screen_height as nat,
            forall|i: int|
                0 <= i < editor@.screen_height as int ==> ctx@.spans[i] == (if i
                    < spec_content_height(editor@) as int
                    && editor@.row_offset + i < final(self).syntax.cached_spans@.len() {
                    spec_slice_spans(
                        (final(self).syntax.cached_spans@[editor@.row_offset as int + i])@,
                        editor@.col_offset,
                        editor@.screen_width as nat,
                    )
                } else {
                    Seq::<StyledSpan>::empty()
                }),
    {
        let mut ctx = RenderContext::new(editor.screen_width, editor.screen_height);
        self.buffer_render.on_render(editor, &mut ctx);
        self.syntax.on_render(editor, &mut ctx);
        self.status_bar.on_render(editor, &mut ctx);
        self.command_line_render.on_render(editor, &mut ctx);
        self.cursor_render.on_render(editor, &mut ctx);
        ctx
    }
}

} // verus!
