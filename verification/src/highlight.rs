//! Revision-keyed syntax highlighting: an outside grammar-and-theme engine
//! classifies each buffer line into styled runs; this module merges the runs
//! into non-overlapping ordered spans, caches one span array per line keyed
//! by `(revision, file identity)`, and windows the cached spans against the
//! viewport on every frame.
//!
//! The classifier itself (syntect) stands behind trusted wrappers; all cache
//! and span logic is verified.

use vstd::prelude::*;

use crate::editor::{spec_bump, spec_content_height, Editor, EditorView};
use crate::render::{RenderContext, SpanColor, Style, StyledSpan};
use crate::text::{char_count, opt_str_equal, push_char};

verus! {

#[verifier::external_type_specification]
#[verifier::external_body]
pub struct ExSyntaxSet(syntect::parsing::SyntaxSet);

#[verifier::external_type_specification]
#[verifier::external_body]
pub struct ExSyntaxReference(syntect::parsing::SyntaxReference);

#[verifier::external_type_specification]
#[verifier::external_body]
pub struct ExTheme(syntect::highlighting::Theme);

#[verifier::external_type_specification]
#[verifier::external_body]
pub struct ExThemeSet(syntect::highlighting::ThemeSet);

#[verifier::external_type_specification]
#[verifier::external_body]
pub struct ExHighlightLines<'a>(syntect::easy::HighlightLines<'a>);

/// One styled run as the classifier reports it: the run's text and its
/// style, flattened to plain values (RGBA colors and font flags).
pub struct RawRun {
    pub fg_r: u8,
    pub fg_g: u8,
    pub fg_b: u8,
    pub fg_a: u8,
    pub bg_r: u8,
    pub bg_g: u8,
    pub bg_b: u8,
    pub bg_a: u8,
    pub bold: bool,
    pub italic: bool,
    pub underline: bool,
    pub text: String,
}

/// The concatenation of the texts of a sequence of runs.
pub open spec fn runs_text(runs: Seq<RawRun>) -> Seq<char>
    decreases runs.len(),
{
    if runs.len() == 0 {
        Seq::<char>::empty()
    } else {
        runs[0].text@ + runs_text(runs.skip(1))
    }
}

/// Relies on syntect's `SyntaxSet::load_defaults_newlines`: the grammar set
/// bundled with the crate, in the mode that expects trailing line breaks.
#[verifier::external_body]
fn load_default_syntaxes() -> syntect::parsing::SyntaxSet {
    syntect::parsing::SyntaxSet::load_defaults_newlines()
}

/// Relies on syntect's `ThemeSet::load_defaults`: the theme set bundled
/// with the crate.
#[verifier::external_body]
fn load_default_themes() -> syntect::highlighting::ThemeSet {
    syntect::highlighting::ThemeSet::load_defaults()
}

/// Relies on `BTreeMap::get` over syntect's `ThemeSet::themes`: the theme
/// stored under the given name, if any.
#[verifier::external_body]
fn theme_named(
    themes: &syntect::highlighting::ThemeSet,
    name: &str,
) -> Option<syntect::highlighting::Theme> {
    themes.themes.get(name).cloned()
}

/// Relies on `BTreeMap::first_key_value` over syntect's `ThemeSet::themes`:
/// the theme under the first name in order, if the set is non-empty.
#[verifier::external_body]
fn first_theme(themes: &syntect::highlighting::ThemeSet) -> Option<syntect::highlighting::Theme> {
    themes.themes.first_key_value().map(|(_, theme)| theme.clone())
}

/// Relies on syntect's `Theme` implementing `Default`: an unstyled theme.
#[verifier::external_body]
fn default_theme() -> syntect::highlighting::Theme {
    syntect::highlighting::Theme::default()
}

/// Relies on syntect's `SyntaxSet::find_syntax_for_file`, which picks a
/// grammar by the path's file name or extension and may read the file's
/// first line from disk; a read failure or a miss both yield `None`.
#[verifier::external_body]
fn find_syntax_file(
    ss: &syntect::parsing::SyntaxSet,
    path: &String,
) -> Option<syntect::parsing::SyntaxReference> {
    match ss.find_syntax_for_file(path.as_str()) {
        Ok(Some(r)) => Some(r.clone()),
        _ => None,
    }
}

/// Relies on syntect's `SyntaxSet::find_syntax_by_name`: the grammar of
/// that exact name, if the set holds one.
#[verifier::external_body]
fn find_syntax_named(
    ss: &syntect::parsing::SyntaxSet,
    name: &str,
) -> Option<syntect::parsing::SyntaxReference> {
    ss.find_syntax_by_name(name).cloned()
}

/// Relies on syntect's `HighlightLines::new`: a fresh line highlighter for
/// one grammar and theme.
#[verifier::external_body]
fn new_highlighter<'a>(
    syntax: &syntect::parsing::SyntaxReference,
    theme: &'a syntect::highlighting::Theme,
) -> syntect::easy::HighlightLines<'a> {
    syntect::easy::HighlightLines::new(syntax, theme)
}

/// Relies on syntect's `HighlightLines::highlight_line`: it splits the line
/// into consecutive styled runs, taken from the start of the line in order,
/// so their texts concatenate to a prefix of the line (to the whole line
/// unless the highlight iterator stops early on an inconsistent scope
/// operation). A parse failure yields no runs. Which styles come back
/// depends on the grammar database, so nothing more is claimed.
#[verifier::external_body]
fn highlight_line_runs(
    hl: &mut syntect::easy::HighlightLines,
    line: &String,
    ss: &syntect::parsing::SyntaxSet,
) -> (runs: Vec<RawRun>)
    ensures
        runs_text(runs@).len() <= line@.len(),
        runs_text(runs@) == line@.take(runs_text(runs@).len() as int),
{
    match hl.highlight_line(line.as_str(), ss) {
        Err(_) => Vec::new(),
        Ok(ranges) => ranges.into_iter().map(|(sty, txt)| RawRun {
            fg_r: sty.foreground.r, fg_g: sty.foreground.g,
            fg_b: sty.foreground.b, fg_a: sty.foreground.a,
            bg_r: sty.background.r, bg_g: sty.background.g,
            bg_b: sty.background.b, bg_a: sty.background.a,
            bold: sty.font_style.contains(syntect::highlighting::FontStyle::BOLD),
            italic: sty.font_style.contains(syntect::highlighting::FontStyle::ITALIC),
            underline: sty.font_style.contains(syntect::highlighting::FontStyle::UNDERLINE),
            text: txt.to_string(),
        }).collect(),
    }
}

/// A classifier color mapped to a span color: a zero alpha means "no color".
pub open spec fn spec_map_color(r: u8, g: u8, b: u8, a: u8) -> SpanColor {
    if a == 0 {
        SpanColor::Unset
    } else {
        SpanColor::Rgb(r, g, b)
    }
}

/// A run's style mapped to the library's span style.
pub open spec fn spec_map_style(run: RawRun) -> Style {
    Style {
        foreground: spec_map_color(run.fg_r, run.fg_g, run.fg_b, run.fg_a),
        background: spec_map_color(run.bg_r, run.bg_g, run.bg_b, run.bg_a),
        bold: run.bold,
        italic: run.italic,
        underline: run.underline,
    }
}

fn map_color(r: u8, g: u8, b: u8, a: u8) -> (c: SpanColor)
    ensures
        c == spec_map_color(r, g, b, a),
{
    if a == 0 {
        SpanColor::Unset
    } else {
        SpanColor::Rgb(r, g, b)
    }
}

/// Maps one run's flattened style to a span style.
pub fn map_style(run: &RawRun) -> (s: Style)
    ensures
        s == spec_map_style(*run),
{
    Style {
        foreground: map_color(run.fg_r, run.fg_g, run.fg_b, run.fg_a),
        background: map_color(run.bg_r, run.bg_g, run.bg_b, run.bg_a),
        bold: run.bold,
        italic: run.italic,
        underline: run.underline,
    }
}

/// Characters of the run that land in the rendered row: those before the
/// first line-break character.
pub open spec fn visible_len(t: Seq<char>) -> nat
    decreases t.len(),
{
    if t.len() == 0 {
        0
    } else if t[0] == '\n' || t[0] == '\r' {
        0
    } else {
        (1 + visible_len(t.skip(1))) as nat
    }
}

/// The total visible length of a sequence of runs.
pub open spec fn runs_visible_total(runs: Seq<RawRun>) -> nat
    decreases runs.len(),
{
    if runs.len() == 0 {
        0
    } else {
        (visible_len(runs[0].text@) + runs_visible_total(runs.skip(1))) as nat
    }
}

/// True when some character of `t` is a line break.
pub open spec fn has_newline(t: Seq<char>) -> bool {
    exists|i: int| 0 <= i < t.len() && t[i] == '\n'
}

proof fn lemma_visible_le_len(t: Seq<char>)
    ensures
        visible_len(t) <= t.len(),
        has_newline(t) ==> visible_len(t) < t.len(),
    decreases t.len(),
{
    if t.len() == 0 {
    } else if t[0] == '\n' || t[0] == '\r' {
    } else {
        lemma_visible_le_len(t.skip(1));
        if has_newline(t) {
            let i = choose|i: int| 0 <= i < t.len() && t[i] == '\n';
            assert(i != 0);
            assert(t.skip(1)[i - 1] == '\n');
            assert(has_newline(t.skip(1)));
        }
    }
}

/// The total visible length never exceeds the total text length; when the
/// concatenated text contains a line break it is strictly smaller.
proof fn lemma_visible_total_bound(runs: Seq<RawRun>)
    ensures
        runs_visible_total(runs) <= runs_text(runs).len(),
        has_newline(runs_text(runs)) ==> runs_visible_total(runs) < runs_text(runs).len(),
    decreases runs.len(),
{
    if runs.len() == 0 {
    } else {
        let t0 = runs[0].text@;
        let rest = runs.skip(1);
        lemma_visible_le_len(t0);
        lemma_visible_total_bound(rest);
        assert(runs_text(runs).len() == t0.len() + runs_text(rest).len());
        if has_newline(runs_text(runs)) {
            let i = choose|i: int| 0 <= i < runs_text(runs).len() && runs_text(runs)[i] == '\n';
            if i < t0.len() {
                assert(t0[i] == '\n');
                assert(has_newline(t0));
            } else {
                assert(runs_text(rest)[i - t0.len()] == '\n');
                assert(has_newline(runs_text(rest)));
            }
        }
    }
}

/// Spans well-formed within a row of `bound` characters: every span is
/// non-empty, ends by `bound`, and spans are ordered by start and
/// non-overlapping.
pub open spec fn spans_wf(spans: Seq<StyledSpan>, bound: nat) -> bool {
    &&& forall|i: int|
        0 <= i < spans.len() ==> (#[trigger] spans[i]).len >= 1 && spans[i].start + spans[i].len
            <= bound
    &&& forall|i: int|
        0 <= i < spans.len() - 1 ==> (#[trigger] spans[i]).start + spans[i].len <= spans[i
            + 1].start
}

/// One run folded into the span list at column `col`: an invisible run adds
/// nothing; a run continuing the previous style extends the last span; any
/// other run starts a new span.
pub open spec fn spec_add_run(
    spans: Seq<StyledSpan>,
    col: usize,
    len: usize,
    sty: Style,
) -> Seq<StyledSpan> {
    if len == 0 {
        spans
    } else if spans.len() > 0 && spans.last().style == sty && spans.last().start + spans.last().len
        == col {
        spans.update(
            spans.len() - 1,
            StyledSpan { start: spans.last().start, len: (spans.last().len + len) as usize, style: sty },
        )
    } else {
        spans.push(StyledSpan { start: col, len, style: sty })
    }
}

/// The span list and column after folding the first `i` runs.
pub open spec fn spans_state(runs: Seq<RawRun>, i: int) -> (Seq<StyledSpan>, nat)
    decreases i,
{
    if i <= 0 {
        (Seq::<StyledSpan>::empty(), 0)
    } else {
        let (sp, col) = spans_state(runs, i - 1);
        let v = visible_len(runs[i - 1].text@);
        ((spec_add_run(sp, col as usize, v as usize, spec_map_style(runs[i - 1]))), (col + v) as nat)
    }
}

/// The column accumulated by the fold is the total visible length.
proof fn lemma_spans_state_col(runs: Seq<RawRun>, i: int)
    requires
        0 <= i <= runs.len(),
    ensures
        spans_state(runs, i).1 == runs_visible_total(runs.take(i)),
    decreases i,
{
    if i > 0 {
        lemma_spans_state_col(runs, i - 1);
        lemma_visible_total_snoc(runs.take(i));
        assert(runs.take(i).drop_last() =~= runs.take(i - 1));
        assert(runs.take(i).last() == runs[i - 1]);
    }
}

proof fn lemma_visible_total_snoc(runs: Seq<RawRun>)
    requires
        runs.len() >= 1,
    ensures
        runs_visible_total(runs) == runs_visible_total(runs.drop_last()) + visible_len(
            runs.last().text@,
        ),
    decreases runs.len(),
{
    if runs.len() == 1 {
        assert(runs.drop_last() =~= Seq::<RawRun>::empty());
        assert(runs.skip(1) =~= Seq::<RawRun>::empty());
    } else {
        lemma_visible_total_snoc(runs.skip(1));
        assert(runs.drop_last()[0] == runs[0]);
        assert(runs.drop_last().skip(1) =~= runs.skip(1).drop_last());
        assert(runs.skip(1).last() == runs.last());
    }
}

/// Measures how many characters of the run land in the row.
fn visible_len_of(text: &String) -> (n: usize)
    ensures
        n == visible_len(text@),
{
    let total = char_count(text);
    let mut j: usize = 0;
    proof {
        assert(text@.skip(0) =~= text@);
    }
    while j < total
        invariant
            j <= total,
            total == text@.len(),
            visible_len(text@) == j + visible_len(text@.skip(j as int)),
            forall|m: int| 0 <= m < j ==> text@[m] != '\n' && text@[m] != '\r',
        decreases total - j,
    {
        let c = text.as_str().get_char(j);
        if c == '\n' || c == '\r' {
            proof {
                assert(text@.skip(j as int)[0] == c);
                assert(visible_len(text@.skip(j as int)) == 0);
            }
            return j;
        }
        proof {
            assert(text@.skip(j as int)[0] == c);
            assert(text@.skip(j as int).skip(1) =~= text@.skip(j as int + 1));
        }
        j = j + 1;
    }
    proof {
        assert(text@.skip(total as int).len() == 0);
    }
    j
}

/// Merges the classifier's runs for one row into its styled spans: runs are
/// measured up to the first line break, adjacent runs with one style merge
/// into one span, and the spans come out ordered, non-overlapping and
/// within the total visible length.
pub fn spans_from_ranges(runs: &Vec<RawRun>) -> (spans: Vec<StyledSpan>)
    requires
        runs_visible_total(runs@) <= usize::MAX,
    ensures
        spans@ == spans_state(runs@, runs@.len() as int).0,
        spans_wf(spans@, runs_visible_total(runs@)),
{
    let mut spans: Vec<StyledSpan> = Vec::new();
    let mut col: usize = 0;
    let mut i: usize = 0;
    let n = runs.len();
    while i < n
        invariant
            i <= n,
            n == runs@.len(),
            spans@ == spans_state(runs@, i as int).0,
            col == spans_state(runs@, i as int).1,
            col == runs_visible_total(runs@.take(i as int)),
            runs_visible_total(runs@) <= usize::MAX,
            spans_wf(spans@, col as nat),
            spans@.len() > 0 ==> spans@.last().start + spans@.last().len <= col,
        decreases n - i,
    {
        proof {
            lemma_spans_state_col(runs@, i as int + 1);
            lemma_visible_total_prefix(runs@, i as int + 1);
        }
        let len = visible_len_of(&runs[i].text);
        let sty = map_style(&runs[i]);
        if len > 0 {
            let m = spans.len();
            if m > 0 && spans[m - 1].style == sty && spans[m - 1].start + spans[m - 1].len == col {
                let prev = spans[m - 1];
                spans[m - 1] = StyledSpan { start: prev.start, len: prev.len + len, style: sty };
            } else {
                spans.push(StyledSpan { start: col, len, style: sty });
            }
            col = col + len;
        }
        i = i + 1;
        proof {
            assert(spans@ == spans_state(runs@, i as int).0);
        }
    }
    proof {
        assert(runs@.take(n as int) =~= runs@);
        lemma_spans_state_col(runs@, n as int);
    }
    spans
}

/// The visible total of a prefix never exceeds the whole.
proof fn lemma_visible_total_prefix(runs: Seq<RawRun>, i: int)
    requires
        0 <= i <= runs.len(),
    ensures
        runs_visible_total(runs.take(i)) <= runs_visible_total(runs),
    decreases runs.len() - i,
{
    if i < runs.len() {
        lemma_visible_total_prefix(runs, i + 1);
        lemma_visible_total_snoc(runs.take(i + 1));
        assert(runs.take(i + 1).drop_last() =~= runs.take(i));
    } else {
        assert(runs.take(i) =~= runs);
    }
}

/// Picks the grammar for the document: by file identity when one is set and
/// matches, else the plain-text grammar. Every bundled grammar set holds a
/// plain-text grammar; with a set that lacks one there is no grammar at all
/// and nothing can be classified.
fn syntax_for_path(
    ss: &syntect::parsing::SyntaxSet,
    file_path: &Option<String>,
) -> Option<syntect::parsing::SyntaxReference> {
    let by_file = match file_path {
        Some(p) => find_syntax_file(ss, p),
        None => None,
    };
    match by_file {
        Some(syntax) => Some(syntax),
        None => find_syntax_named(ss, "Plain Text"),
    }
}

/// Classifies every buffer line and merges each line's runs into its styled
/// spans: one span array per line, each well-formed within its line's
/// character length (ordered, non-overlapping, non-empty spans).
pub fn compute_spans(
    ss: &syntect::parsing::SyntaxSet,
    theme: &syntect::highlighting::Theme,
    file_path: &Option<String>,
    lines: &Vec<String>,
) -> (spans: Vec<Vec<StyledSpan>>)
    ensures
        spans@.len() == lines@.len(),
        forall|i: int|
            0 <= i < spans@.len() ==> spans_wf(
                (#[trigger] spans@[i])@,
                lines.deep_view()[i].len(),
            ),
{
    let syntax = match syntax_for_path(ss, file_path) {
        Some(syntax) => syntax,
        None => {
            let mut spans: Vec<Vec<StyledSpan>> = Vec::new();
            let mut idx: usize = 0;
            let n = lines.len();
            while idx < n
                invariant
                    idx <= n,
                    spans@.len() == idx as nat,
                    forall|i: int|
                        0 <= i < idx as int ==> (#[trigger] spans@[i])@ == Seq::<
                            StyledSpan,
                        >::empty(),
                decreases n - idx,
            {
                spans.push(Vec::new());
                idx = idx + 1;
            }
            return spans;
        },
    };
    let mut hl = new_highlighter(&syntax, theme);
    let mut spans: Vec<Vec<StyledSpan>> = Vec::new();
    let mut idx: usize = 0;
    let n = lines.len();
    while idx < n
        invariant
            idx <= n,
            n == lines@.len(),
            spans@.len() == idx as nat,
            forall|i: int|
                0 <= i < idx as int ==> spans_wf(
                    (#[trigger] spans@[i])@,
                    lines.deep_view()[i].len(),
                ),
        decreases n - idx,
    {
        let mut owned = lines[idx].clone();
        if idx + 1 < n {
            push_char(&mut owned, '\n');
        }
        let owned_chars = char_count(&owned);
        let runs = highlight_line_runs(&mut hl, &owned, ss);
        proof {
            lemma_visible_total_bound(runs@);
            let text = runs_text(runs@);
            let line_view = lines.deep_view()[idx as int];
            if idx as int + 1 < n as int {
                assert(owned@ == line_view + seq!['\n']);
                if text.len() == owned@.len() {
                    assert(text =~= owned@);
                    assert(owned@[owned@.len() - 1] == '\n');
                    assert(has_newline(text));
                    assert(runs_visible_total(runs@) < text.len());
                } else {
                    assert(text.len() < owned@.len());
                }
            } else {
                assert(owned@ == line_view);
            }
            assert(runs_visible_total(runs@) <= line_view.len());
        }
        let line_spans = spans_from_ranges(&runs);
        spans.push(line_spans);
        idx = idx + 1;
    }
    spans
}

/// The spans of one row windowed to the viewport: spans fully outside the
/// `width` columns starting at `col_offset` are dropped, partially visible
/// ones are truncated at the boundary, and the survivors are rebased to be
/// viewport-relative.
pub open spec fn spec_slice_spans(spans: Seq<StyledSpan>, co: nat, width: nat) -> Seq<StyledSpan>
    decreases spans.len(),
{
    if width == 0 || spans.len() == 0 {
        Seq::<StyledSpan>::empty()
    } else {
        let rest = spec_slice_spans(spans.skip(1), co, width);
        let sp = spans[0];
        let end = if co + width > usize::MAX {
            usize::MAX as nat
        } else {
            (co + width) as nat
        };
        let lo = if sp.start as nat >= co {
            sp.start as nat
        } else {
            co
        };
        let hi = if sp.start + sp.len <= end {
            (sp.start + sp.len) as nat
        } else {
            end
        };
        if hi > lo {
            seq![
                StyledSpan { start: (lo - co) as usize, len: (hi - lo) as usize, style: sp.style },
            ] + rest
        } else {
            rest
        }
    }
}

/// Windows one row's spans against the horizontal scroll.
pub fn slice_spans(spans: &Vec<StyledSpan>, col_offset: usize, width: usize) -> (r: Vec<
    StyledSpan,
>)
    ensures
        r@ == spec_slice_spans(spans@, col_offset as nat, width as nat),
{
    let mut r: Vec<StyledSpan> = Vec::new();
    if width == 0 {
        return r;
    }
    let end = if col_offset > usize::MAX - width {
        usize::MAX
    } else {
        col_offset + width
    };
    let n = spans.len();
    let mut i: usize = 0;
    proof {
        assert(spans@.skip(0) =~= spans@);
    }
    while i < n
        invariant
            i <= n,
            n == spans@.len(),
            width >= 1,
            end == (if col_offset as nat + width as nat > usize::MAX {
                usize::MAX as nat
            } else {
                col_offset as nat + width as nat
            }),
            spec_slice_spans(spans@, col_offset as nat, width as nat) =~= r@ + spec_slice_spans(
                spans@.skip(i as int),
                col_offset as nat,
                width as nat,
            ),
        decreases n - i,
    {
        let sp = spans[i];
        proof {
            assert(spans@.skip(i as int)[0] == sp);
            assert(spans@.skip(i as int).skip(1) =~= spans@.skip(i as int + 1));
        }
        let dead_left = sp.start <= col_offset && sp.len <= col_offset - sp.start;
        let dead_right = sp.start >= end;
        if !dead_left && !dead_right {
            let lo = if sp.start >= col_offset {
                sp.start
            } else {
                col_offset
            };
            let hi = if sp.len >= end - sp.start {
                end
            } else {
                sp.start + sp.len
            };
            if hi > lo {
                r.push(StyledSpan { start: lo - col_offset, len: hi - lo, style: sp.style });
            }
        }
        i = i + 1;
    }
    proof {
        assert(spec_slice_spans(spans@.skip(n as int), col_offset as nat, width as nat)
            =~= Seq::<StyledSpan>::empty());
    }
    r
}

/// True when the cache must be recomputed for this editor state: the
/// revision moved, the file identity changed, or the cached span count no
/// longer matches the buffer's line count.
pub open spec fn spec_needs_rehighlight(
    e: EditorView,
    last_revision: u64,
    last_path: Option<Seq<char>>,
    cached_len: nat,
) -> bool {
    e.revision != last_revision || e.file_path != last_path || e.lines.len() != cached_len
}

/// A cache stamped with the editor's own revision, identity and line count
/// is fresh: the next render reuses it verbatim.
pub proof fn lemma_cache_fresh(e: EditorView, cached_len: nat)
    requires
        cached_len == e.lines.len(),
    ensures
        !spec_needs_rehighlight(e, e.revision, e.file_path, cached_len),
{
}

/// Bumping the revision always changes it, so every content edit
/// invalidates a cache stamped with the pre-edit revision.
pub proof fn lemma_bump_changes_revision(revision: u64)
    ensures
        spec_bump(revision) != revision,
{
}

/// A revision mismatch alone forces a recompute, whatever the rest of the
/// state.
pub proof fn lemma_revision_change_forces(
    e: EditorView,
    last_revision: u64,
    last_path: Option<Seq<char>>,
    cached_len: nat,
)
    requires
        e.revision != last_revision,
    ensures
        spec_needs_rehighlight(e, last_revision, last_path, cached_len),
{
}

/// Highlights the visible window of the buffer, recomputing its cached
/// spans only when the revision, file identity or line count moved.
pub struct SyntaxHighlightPlugin {
    pub syntax_set: syntect::parsing::SyntaxSet,
    pub theme: syntect::highlighting::Theme,
    pub cached_spans: Vec<Vec<StyledSpan>>,
    pub last_revision: u64,
    pub last_path: Option<String>,
    /// How many full recomputes have run (wrapping); observable so the
    /// cache law can be tested.
    pub recompute_count: u64,
}

impl SyntaxHighlightPlugin {
    /// A plugin with an empty cache, stamped so the first render always
    /// recomputes.
    pub fn new() -> (p: SyntaxHighlightPlugin)
        ensures
            p.cached_spans@.len() == 0,
            p.last_revision == u64::MAX,
            p.last_path is None,
            p.recompute_count == 0,
    {
        let syntax_set = load_default_syntaxes();
        let theme_set = load_default_themes();
        let theme = match theme_named(&theme_set, "base16-ocean.dark") {
            Some(t) => t,
            None => match first_theme(&theme_set) {
                Some(t) => t,
                None => default_theme(),
            },
        };
        SyntaxHighlightPlugin {
            syntax_set,
            theme,
            cached_spans: Vec::new(),
            last_revision: u64::MAX,
            last_path: None,
            recompute_count: 0,
        }
    }

    /// Whether the cache is stale for this editor state.
    pub fn needs_rehighlight(&self, editor: &Editor) -> (b: bool)
        ensures
            b == spec_needs_rehighlight(
                editor@,
                self.last_revision,
                self.last_path.deep_view(),
                self.cached_spans@.len(),
            ),
    {
        if editor.revision != self.last_revision {
            return true;
        }
        if !opt_str_equal(&editor.file_path, &self.last_path) {
            return true;
        }
        editor.buffer.lines.len() != self.cached_spans.len()
    }

    /// Runs the cache through one render pass: recomputes every line's spans
    /// exactly when the stamp is stale (bumping the recompute counter), then
    /// writes the visible rows' windowed spans into the surface. Two renders
    /// against one editor state recompute at most once.
    pub fn on_render(&mut self, editor: &Editor, ctx: &mut RenderContext)
        ensures
            final(self).syntax_set == old(self).syntax_set,
            final(self).theme == old(self).theme,
            final(self).last_revision == editor@.revision,
            final(self).last_path.deep_view() == editor@.file_path,
            final(self).cached_spans@.len() == editor@.lines.len(),
            spec_needs_rehighlight(
                editor@,
                old(self).last_revision,
                old(self).last_path.deep_view(),
                old(self).cached_spans@.len(),
            ) ==> {
                &&& final(self).recompute_count == spec_bump(old(self).recompute_count)
                &&& forall|i: int|
                    0 <= i < editor@.lines.len() ==> spans_wf(
                        (#[trigger] final(self).cached_spans@[i])@,
                        editor@.lines[i].len(),
                    )
            },
            !spec_needs_rehighlight(
                editor@,
                old(self).last_revision,
                old(self).last_path.deep_view(),
                old(self).cached_spans@.len(),
            ) ==> {
                &&& final(self).cached_spans == old(self).cached_spans
                &&& final(self).recompute_count == old(self).recompute_count
                &&& final(self).last_path == old(self).last_path
            },
            final(ctx)@.width == old(ctx)@.width,
            final(ctx)@.height == old(ctx)@.height,
            final(ctx)@.lines == old(ctx)@.lines,
            final(ctx)@.cursor == old(ctx)@.cursor,
            final(ctx)@.spans.len() == old(ctx)@.spans.len(),
            forall|i: int|
                0 <= i < final(ctx)@.spans.len() ==> final(ctx)@.spans[i] == (if i
                    < spec_content_height(editor@) as int
                    && editor@.row_offset + i < final(self).cached_spans@.len() {
                    spec_slice_spans(
                        (final(self).cached_spans@[editor@.row_offset as int + i])@,
                        editor@.col_offset,
                        old(ctx)@.width as nat,
                    )
                } else {
                    old(ctx)@.spans[i]
                }),
    {
        let needs = self.needs_rehighlight(editor);
        if needs {
            let fresh = compute_spans(
                &self.syntax_set,
                &self.theme,
                &editor.file_path,
                &editor.buffer.lines,
            );
            self.cached_spans = fresh;
            self.last_revision = editor.revision;
            let path_copy: Option<String> = match &editor.file_path {
                Some(p) => Some(p.clone()),
                None => None,
            };
            proof {
                assert(path_copy.deep_view() =~= editor@.file_path);
            }
            self.last_path = path_copy;
            self.recompute_count = if self.recompute_count == u64::MAX {
                0
            } else {
                self.recompute_count + 1
            };
        }
        let width = ctx.width as usize;
        let content_height = editor.content_height();
        let mut row: u16 = 0;
        while row < content_height
            invariant
                row <= content_height,
                content_height as nat == spec_content_height(editor@),
                width == ctx@.width as nat,
                ctx@.width == old(ctx)@.width,
                ctx@.height == old(ctx)@.height,
                ctx@.lines == old(ctx)@.lines,
                ctx@.cursor == old(ctx)@.cursor,
                ctx@.spans.len() == old(ctx)@.spans.len(),
                forall|i: int|
                    0 <= i < ctx@.spans.len() ==> ctx@.spans[i] == (if i < row as int
                        && editor@.row_offset + i < self.cached_spans@.len() {
                        spec_slice_spans(
                            (self.cached_spans@[editor@.row_offset as int + i])@,
                            editor@.col_offset,
                            old(ctx)@.width as nat,
                        )
                    } else {
                        old(ctx)@.spans[i]
                    }),
            decreases content_height - row,
        {
            let ro = editor.viewport.row_offset;
            let cached_len = self.cached_spans.len();
            if ro < cached_len && (row as usize) < cached_len - ro {
                let buffer_row = ro + row as usize;
                let sliced = slice_spans(
                    &self.cached_spans[buffer_row],
                    editor.viewport.col_offset,
                    width,
                );
                ctx.set_spans(row, sliced);
            }
            row = row + 1;
        }
    }
}

} // verus!
