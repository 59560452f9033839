//! The editor as it is drawn.

use vstd::prelude::*;

use crate::editor_view::buffer;
use crate::editor_view::buffer::Buffer;
use crate::editor_view::buffer::CursorPlacement;
use crate::editor_view::buffer::HighlightSnapshot;
use crate::editor_view::buffer::LineDiffStatus;
use crate::editor_view::buffer::Mode;
use crate::editor_view::buffer::SearchHighlight;
use crate::editor_view::buffer::Segment;
use crate::editor_view::buffer::SegmentMapError;
use crate::editor_view::looks;
use crate::editor_view::looks::Marks;
use crate::editor_view::spans;
use crate::fit;
use crate::frames;
use crate::frames::PaneFrame;
use crate::geometry;
use crate::geometry::Rect;
use crate::style;
use crate::style::Color;
use crate::style::Line;
use crate::style::Piece;
use crate::style::Span;
use crate::style::Style;
use crate::style::Theme;
use crate::text;

verus! {

/// How wide the line numbers are.
pub open spec fn number_width(b: Buffer) -> int {
    text::max_int(text::decimal(buffer::total_lines(b) as nat).len() as int, 3)
}

fn number_width_of(b: &Buffer) -> (r: usize)
    ensures
        r == number_width(*b),
        r <= 20,
{
    let count: usize = buffer::line_total(b);
    proof {
        text::machine_numbers_are_short(count as nat);
    }
    let total: String = text::decimal_usize(count);
    text::max_of(text::length(total.as_str()), 3)
}

/// The number of a line in its column; spaces behind the last line.
pub open spec fn number_text(b: Buffer, line: int) -> Seq<char> {
    if line < buffer::total_lines(b) {
        " "@ + fit::right_at_least(text::decimal((line + 1) as nat), number_width(b)) + " "@
    } else {
        " "@ + text::fill(' ', number_width(b) as nat) + " "@
    }
}

fn number_text_of(b: &Buffer, line: usize, width: usize) -> (r: String)
    requires
        width == number_width(*b),
    ensures
        r@ == number_text(*b, line as int),
{
    if line < buffer::line_total(b) {
        let count: String = text::decimal_usize(line + 1);
        let padded: String = fit::pad_start(count.as_str(), width);
        text::cat3(" ", padded.as_str(), " ")
    } else {
        let space: String = text::filled(' ', width);
        text::cat3(" ", space.as_str(), " ")
    }
}

/// What all lines of the pane have in common.
pub struct PaneLook<'a> {
    pub bg: Color,
    pub selecting: bool,
    pub marks: Marks<'a>,
    pub tab_width: usize,
    pub theme: Theme,
}

/// The style of a line before anything is marked in it.
pub open spec fn line_base(b: Buffer, p: PaneLook, line: int) -> Style {
    looks::base_style(p.theme, p.bg, line == b.cursor_line, p.selecting)
}

/// The styles of the characters of a line.
pub open spec fn line_looks(b: Buffer, s: Option<HighlightSnapshot>, p: PaneLook, line: int) -> Seq<
    Style,
> {
    Seq::new(
        buffer::content(b, line).len(),
        |i: int|
            looks::look(
                b,
                buffer::segments_of(b, s, line),
                p.marks,
                line_base(b, p, line),
                line,
                i,
                p.theme,
            ),
    )
}

/// The bar behind the number of a line.
pub open spec fn bar_text(status: LineDiffStatus) -> Seq<char> {
    if status == LineDiffStatus::DeletedAbove {
        "▔"@ + " "@
    } else {
        "│"@ + " "@
    }
}

/// A line of the pane: its number, a bar that tells whether it has changed, and the part of the
/// text that is in sight.
pub open spec fn line_pieces(b: Buffer, s: Option<HighlightSnapshot>, p: PaneLook, line: int) -> Seq<
    Piece,
> {
    let caret_line: bool = line == b.cursor_line;
    let text_chars: Seq<char> = buffer::content(b, line);
    seq![
        style::piece(number_text(b, line), looks::number_style(caret_line, p.bg, p.theme)),
        style::piece(
            bar_text(buffer::diff_of(b, line)),
            looks::bar_style(caret_line, p.bg, buffer::diff_of(b, line), p.theme),
        ),
    ] + spans::shown(
        text_chars,
        line_looks(b, s, p, line),
        text::min_int(
            spans::display_col(
                text_chars,
                p.tab_width as int,
                text::min_int(b.viewport.offset_col as int, text_chars.len() as int),
            ),
            usize::MAX as int,
        ),
        text::max_int(b.viewport.width as int, 1),
        p.tab_width as int,
        line_base(b, p, line),
    )
}

fn looks_of_line(
    b: &Buffer,
    s: &Option<HighlightSnapshot>,
    segs: Option<&Vec<Segment>>,
    v: &Vec<char>,
    p: &PaneLook,
    base: Style,
    line: usize,
) -> (r: Vec<Style>)
    requires
        v@ == buffer::content(*b, line as int),
        buffer::opt_segments(segs) == buffer::segments_of(*b, *s, line as int),
        base == line_base(*b, *p, line as int),
    ensures
        r@ == line_looks(*b, *s, *p, line as int),
{
    let ghost want: Seq<Style> = line_looks(*b, *s, *p, line as int);
    let mut out: Vec<Style> = Vec::new();
    let mut i: usize = 0;
    assert(out@ =~= want.take(0));
    while i < v.len()
        invariant
            i <= v@.len(),
            v@ == buffer::content(*b, line as int),
            buffer::opt_segments(segs) == buffer::segments_of(*b, *s, line as int),
            base == line_base(*b, *p, line as int),
            want == line_looks(*b, *s, *p, line as int),
            out@ == want.take(i as int),
        decreases v@.len() - i,
    {
        out.push(looks::look_of(b, segs, &p.marks, base, line, i, &p.theme));
        i += 1;
        assert(want.take(i as int) =~= want.take(i - 1).push(want[i - 1]));
    }
    assert(want.take(i as int) =~= want);
    out
}

/// A line of the pane, and the range that does not fit it.
pub fn render_line(b: &Buffer, s: &Option<HighlightSnapshot>, p: &PaneLook, line: usize) -> (r: (
    Line,
    Option<SegmentMapError>,
))
    ensures
        r.0@ == line_pieces(*b, *s, *p, line as int),
        r.1 == buffer::error_of(*b, *s, line as int),
{
    let v: Vec<char> = buffer::line_text_at(b, line);
    let caret_line: bool = line == b.cursor_line;
    let base: Style = looks::base_line_style(&p.theme, p.bg, caret_line, p.selecting);
    let (segs, error): (Option<&Vec<Segment>>, Option<SegmentMapError>) =
        buffer::map_snapshot_for_line(b, s, line);
    let char_looks: Vec<Style> = looks_of_line(b, s, segs, &v, p, base, line);
    let status: LineDiffStatus = buffer::line_diff(b, line);
    let (number, bar): (Style, Style) = looks::gutter_styles(caret_line, p.bg, status, &p.theme);
    let from: usize = spans::display_col_for_char_idx(&v, b.viewport.offset_col, p.tab_width);
    let mark: &str = if status == LineDiffStatus::DeletedAbove {
        "▔"
    } else {
        "│"
    };
    let width: usize = number_width_of(b);
    let mut all: Vec<Span> = vec![
        style::styled(number_text_of(b, line, width), number),
        style::styled(text::cat2(mark, " "), bar),
    ];
    let ghost first: Seq<Span> = all@;
    assert(style::pieces(first) =~= seq![
        style::piece(number_text(*b, line as int), number),
        style::piece(bar_text(status), bar),
    ]);
    let mut more: Vec<Span> = spans::build_spans(
        &v,
        &char_looks,
        from,
        text::max_of(b.viewport.width, 1),
        p.tab_width,
        base,
    );
    let ghost second: Seq<Span> = more@;
    all.append(&mut more);
    assert(style::pieces(all@) =~= style::pieces(first) + style::pieces(second));
    (Line { spans: all }, error)
}

/// The lines that are in sight.
pub open spec fn pane_rows(b: Buffer, s: Option<HighlightSnapshot>, p: PaneLook, height: int) -> Seq<
    Seq<Piece>,
> {
    Seq::new(height as nat, |i: int| line_pieces(b, s, p, b.viewport.offset_line + i))
}

/// The range that does not fit its line, of the last line in sight that has one.
pub open spec fn last_error(b: Buffer, s: Option<HighlightSnapshot>, n: int) -> Option<SegmentMapError>
    decreases n,
{
    if n <= 0 {
        None
    } else {
        match buffer::error_of(b, s, b.viewport.offset_line + n - 1) {
            Some(e) => Some(e),
            None => last_error(b, s, n - 1),
        }
    }
}

fn render_lines(b: &Buffer, s: &Option<HighlightSnapshot>, p: &PaneLook, height: usize) -> (r: (
    Vec<Line>,
    Option<SegmentMapError>,
))
    requires
        b.viewport.offset_line + height <= usize::MAX,
    ensures
        style::rows(r.0@) == pane_rows(*b, *s, *p, height as int),
        r.1 == last_error(*b, *s, height as int),
{
    let ghost want: Seq<Seq<Piece>> = pane_rows(*b, *s, *p, height as int);
    let mut out: Vec<Line> = Vec::new();
    let mut error: Option<SegmentMapError> = None;
    let mut i: usize = 0;
    assert(style::rows(out@) =~= want.take(0));
    while i < height
        invariant
            i <= height,
            b.viewport.offset_line + height <= usize::MAX,
            want == pane_rows(*b, *s, *p, height as int),
            style::rows(out@) == want.take(i as int),
            error == last_error(*b, *s, i as int),
        decreases height - i,
    {
        let (line, bad): (Line, Option<SegmentMapError>) = render_line(
            b,
            s,
            p,
            b.viewport.offset_line + i,
        );
        style::push_line(&mut out, line);
        if bad.is_some() {
            error = bad;
        }
        i += 1;
        assert(want.take(i as int) =~= want.take(i - 1) + seq![want[i - 1]]);
    }
    assert(want.take(i as int) =~= want);
    (out, error)
}

/// The line that the caret stands on, without its line end.
pub open spec fn caret_text(b: Buffer) -> Seq<char> {
    buffer::without_line_end(
        buffer::line_text(
            b,
            text::min_int(b.cursor_line as int, text::monus(b.lines@.len() as int, 1)),
        ),
    )
}

/// The column of a place in the caret's line.
pub open spec fn caret_col(b: Buffer, tab_width: int, idx: int) -> int {
    let s: Seq<char> = caret_text(b);
    text::min_int(
        spans::display_col(s, tab_width, text::min_int(idx, s.len() as int)),
        usize::MAX as int,
    )
}

/// The cell of the caret in a pane: behind its border and the line numbers. Of a place far outside
/// of the screen only the lower bits of the way there count.
pub open spec fn caret_cell(b: Buffer, area: Rect, tab_width: int) -> CursorPlacement {
    let across: int = text::monus(
        caret_col(b, tab_width, b.cursor_col as int),
        caret_col(b, tab_width, b.viewport.offset_col as int),
    );
    let down: int = text::monus(b.cursor_line as int, b.viewport.offset_line as int);
    CursorPlacement {
        x: geometry::plus(
            geometry::plus(
                geometry::plus(area.x, 1),
                ((number_width(b) + 4) % 0x10000) as u16,
            ),
            (across % 0x10000) as u16,
        ),
        y: geometry::plus(geometry::plus(area.y, 1), (down % 0x10000) as u16),
    }
}

fn caret_chars(b: &Buffer) -> (r: Vec<char>)
    ensures
        r@ == caret_text(*b),
{
    let at: usize = text::min_of(b.cursor_line, text::minus(b.lines.len(), 1));
    if at >= b.lines.len() {
        let none: Vec<char> = Vec::new();
        assert(none@ =~= caret_text(*b));
        return none;
    }
    let mut v: Vec<char> = text::chars_of(b.lines[at].text.as_str());
    let n: usize = v.len();
    if n > 0 && v[n - 1] == '\n' {
        let ghost before: Seq<char> = v@;
        v.truncate(n - 1);
        assert(v@ =~= before.drop_last());
    }
    v
}

pub fn cursor_placement(b: &Buffer, area: Rect, tab_width: usize) -> (r: CursorPlacement)
    ensures
        r == caret_cell(*b, area, tab_width as int),
{
    let v: Vec<char> = caret_chars(b);
    let col: usize = spans::display_col_for_char_idx(&v, b.cursor_col, tab_width);
    let from: usize = spans::display_col_for_char_idx(&v, b.viewport.offset_col, tab_width);
    let gutter: u16 = frames::low_sixteen(number_width_of(b) + 4);
    let across: u16 = frames::low_sixteen(text::minus(col, from));
    let down: u16 = frames::low_sixteen(text::minus(b.cursor_line, b.viewport.offset_line));
    CursorPlacement {
        x: area.x.saturating_add(1).saturating_add(gutter).saturating_add(across),
        y: area.y.saturating_add(1).saturating_add(down),
    }
}

/// The pane as it is drawn, the caret where it is to be seen, and a range that did not fit its
/// line.
pub struct EditorPaint {
    pub frame: PaneFrame,
    pub title: Line,
    pub look: Style,
    pub lines: Vec<Line>,
    pub cursor: Option<CursorPlacement>,
    pub highlight_error: Option<SegmentMapError>,
}

/// What the lines of a pane have in common.
pub open spec fn pane_look<'a>(
    b: Buffer,
    s: Option<HighlightSnapshot>,
    focused: bool,
    mode: Mode,
    theme: Theme,
    tab_width: usize,
    search: Option<SearchHighlight<'a>>,
) -> PaneLook<'a> {
    PaneLook {
        bg: looks::text_bg(focused, theme),
        selecting: mode == Mode::Visual && b.selection is Some,
        marks: Marks {
            search,
            pair: looks::bracket_pair(b, s, mode, text::max_int(b.viewport.height as int, 1)),
        },
        tab_width,
        theme,
    }
}

/// Whether a pane is drawn.
pub open spec fn draws(
    r: EditorPaint,
    b: Buffer,
    s: Option<HighlightSnapshot>,
    focused: bool,
    title: Seq<char>,
    theme: Theme,
    tab_width: usize,
    show_cursor: bool,
    mode: Mode,
    search: Option<SearchHighlight>,
    area: Rect,
) -> bool {
    let height: int = text::max_int(b.viewport.height as int, 1);
    &&& r.frame == frames::pane_frame(focused, theme)
    &&& r.title@ == seq![style::piece(title, frames::pane_frame(focused, theme).title)]
    &&& r.look == Style::plain().bg(looks::text_bg(focused, theme)).fg(theme.foreground)
    &&& style::rows(r.lines@) == pane_rows(
        b,
        s,
        pane_look(b, s, focused, mode, theme, tab_width, search),
        height,
    )
    &&& r.highlight_error == last_error(b, s, height)
    &&& r.cursor == (if show_cursor && focused {
        Some(caret_cell(b, area, tab_width as int))
    } else {
        None
    })
}

/// Whether the numbers of the lines in sight can be told.
pub open spec fn countable(b: Buffer) -> bool {
    b.viewport.offset_line + text::max_int(b.viewport.height as int, 1) <= usize::MAX
}

pub fn render_buffer(
    area: Rect,
    b: &Buffer,
    s: &Option<HighlightSnapshot>,
    focused: bool,
    title: &str,
    theme: &Theme,
    tab_width: usize,
    show_cursor: bool,
    mode: Mode,
    search: Option<SearchHighlight>,
) -> (r: EditorPaint)
    requires
        countable(*b),
    ensures
        draws(
            r,
            *b,
            *s,
            focused,
            title@,
            *theme,
            tab_width,
            show_cursor,
            mode,
            search,
            area,
        ),
{
    let height: usize = text::max_of(b.viewport.height, 1);
    let bg: Color = looks::buffer_input_bg(theme, focused);
    let p: PaneLook = PaneLook {
        bg,
        selecting: mode == Mode::Visual && b.selection.is_some(),
        marks: Marks { search, pair: looks::bracket_pair_for_render(b, s, mode, height) },
        tab_width,
        theme: *theme,
    };
    let (lines, highlight_error): (Vec<Line>, Option<SegmentMapError>) = render_lines(
        b,
        s,
        &p,
        height,
    );
    let frame: PaneFrame = frames::pane_frame(focused, *theme);
    let cursor: Option<CursorPlacement> = if show_cursor && focused {
        Some(cursor_placement(b, area, tab_width))
    } else {
        None
    };
    EditorPaint {
        frame,
        title: style::single(text::copy(title), frame.title),
        look: Style::plain().bg(bg).fg(theme.foreground),
        lines,
        cursor,
        highlight_error,
    }
}

/// The editor, without a search.
pub fn render_editor(
    area: Rect,
    b: &Buffer,
    s: &Option<HighlightSnapshot>,
    focused: bool,
    mode: Mode,
    theme: &Theme,
    tab_width: usize,
) -> (r: EditorPaint)
    requires
        countable(*b),
    ensures
        draws(
            r,
            *b,
            *s,
            focused,
            "EDITOR  [ SAVE ]"@,
            *theme,
            tab_width,
            true,
            mode,
            None,
            area,
        ),
{
    render_buffer(
        area,
        b,
        s,
        focused,
        "EDITOR  [ SAVE ]",
        theme,
        tab_width,
        true,
        mode,
        None,
    )
}

/// The editor, with what a search found marked.
pub fn render_editor_with_search(
    area: Rect,
    b: &Buffer,
    s: &Option<HighlightSnapshot>,
    focused: bool,
    mode: Mode,
    theme: &Theme,
    tab_width: usize,
    search: Option<SearchHighlight>,
) -> (r: EditorPaint)
    requires
        countable(*b),
    ensures
        draws(
            r,
            *b,
            *s,
            focused,
            "EDITOR  [ SAVE ]"@,
            *theme,
            tab_width,
            true,
            mode,
            search,
            area,
        ),
{
    render_buffer(
        area,
        b,
        s,
        focused,
        "EDITOR  [ SAVE ]",
        theme,
        tab_width,
        true,
        mode,
        search,
    )
}

} // verus!
