//! Where the parts of the chat stand and what its input box shows.

use vstd::prelude::*;

use crate::agent_console_view::chat_input;
use crate::agent_console_view::chat_input::Caret;
use crate::columns;
use crate::frames;
use crate::geometry;
use crate::geometry::Height;
use crate::geometry::Rect;
use crate::state::AppState;
use crate::style;
use crate::style::Color;
use crate::style::Line;
use crate::style::Piece;
use crate::style::Span;
use crate::style::Style;
use crate::style::Theme;
use crate::text;

verus! {

/// The scroll position that follows the caret.
pub const CHAT_INPUT_SCROLL_AUTO: usize = usize::MAX;

/// A cell of the screen.
#[derive(Clone, Copy, Debug, PartialEq, Eq, Structural)]
pub struct ChatCursor {
    pub x: u16,
    pub y: u16,
}

/// How far the input can be scrolled and where it stands.
pub struct ChatInputScrollMetrics {
    pub area: Rect,
    pub window_start: usize,
    pub visible_height: usize,
    pub max_scroll: usize,
    pub total_lines: usize,
}

/// Where the parts of the chat stand, and the lines of its input.
pub struct ConsoleLayout {
    pub thread_area: Rect,
    pub input_chunk: Rect,
    pub input_area: Rect,
    pub input_boxed: bool,
    pub input_lines_all: Vec<String>,
    pub cursor_line_all: usize,
    pub cursor_col_all: usize,
    pub input_inner_height: usize,
    pub input_window_start: usize,
}

/// Whether there is room for the chat.
pub open spec fn roomy(inner: Rect) -> bool {
    inner.width >= 4 && inner.height >= 3
}

/// Whether there is room for a box round the input.
pub open spec fn boxed(inner: Rect) -> bool {
    inner.height >= 5 && inner.width >= 8
}

/// How many lines of the input are shown.
pub open spec fn inner_height(inner: Rect, boxed: bool, lines: int) -> int {
    let room: int = if boxed {
        text::min_int(12, text::max_int(text::monus(inner.height as int, 4), 1))
    } else {
        text::min_int(8, text::max_int(text::monus(inner.height as int, 2), 1))
    };
    text::max_int(text::min_int(text::max_int(lines, 1), room), 1)
}

pub fn input_inner_height_for(inner: Rect, boxed: bool, lines: usize) -> (r: usize)
    ensures
        r == inner_height(inner, boxed, lines as int),
        1 <= r <= 12,
{
    let h: usize = inner.height as usize;
    let room: usize = if boxed {
        text::min_of(12, text::max_of(text::minus(h, 4), 1))
    } else {
        text::min_of(8, text::max_of(text::minus(h, 2), 1))
    };
    text::max_of(text::min_of(text::max_of(lines, 1), room), 1)
}

/// Which line of the input is shown first: the caret is followed, or a position is kept.
pub open spec fn window_start(scroll: int, total: int, height: int, caret_line: int) -> int {
    let most: int = text::monus(total, text::max_int(height, 1));
    text::min_int(
        if scroll == CHAT_INPUT_SCROLL_AUTO {
            text::monus(caret_line, text::monus(height, 1))
        } else {
            scroll
        },
        most,
    )
}

pub fn chat_input_window_start(
    scroll: usize,
    total_lines: usize,
    visible_height: usize,
    cursor_line: usize,
) -> (r: usize)
    ensures
        r == window_start(
            scroll as int,
            total_lines as int,
            visible_height as int,
            cursor_line as int,
        ),
{
    let most: usize = text::minus(total_lines, text::max_of(visible_height, 1));
    if scroll == CHAT_INPUT_SCROLL_AUTO {
        text::min_of(text::minus(cursor_line, text::minus(visible_height, 1)), most)
    } else {
        text::min_of(scroll, most)
    }
}

/// Where the caret is followed, its line is shown.
pub proof fn followed_caret_is_shown(total: int, height: int, caret_line: int)
    requires
        1 <= height,
        0 <= caret_line < total,
    ensures
        ({
            let from: int = window_start(
                CHAT_INPUT_SCROLL_AUTO as int,
                total,
                height,
                caret_line,
            );
            from <= caret_line < from + height
        }),
{
}

/// The caret in the input.
pub open spec fn caret(s: Seq<char>, cursor: int, width: int) -> Caret {
    chat_input::caret_after(
        s,
        chat_input::at_least_one(width),
        text::min_int(cursor, s.len() as int),
    )
}

/// The lines of the input.
pub open spec fn input_lines(s: Seq<char>, width: int) -> Seq<Seq<char>> {
    chat_input::wrapped(s, chat_input::at_least_one(width), s.len() as int)
}

/// How wide the input is wrapped.
pub open spec fn wrap_width(inner: Rect) -> int {
    if boxed(inner) {
        inner.width - 2
    } else {
        inner.width as int
    }
}

/// How tall the input is, with its box.
pub open spec fn input_height(inner: Rect, input: Seq<char>) -> int {
    inner_height(inner, boxed(inner), input_lines(input, wrap_width(inner)).len() as int) + (
    if boxed(inner) {
        2int
    } else {
        0
    })
}

/// Whether an area lies within the screen.
pub open spec fn settled(inner: Rect) -> bool {
    inner.y + inner.height <= u16::MAX
}

/// Where the transcript stands: below a line and above the input.
pub open spec fn transcript_area(inner: Rect, tall: int) -> Rect {
    Rect { y: (inner.y + 1) as u16, height: (inner.height - 1 - tall) as u16, ..inner }
}

/// Where the input stands.
pub open spec fn chunk_area(inner: Rect, tall: int) -> Rect {
    Rect { y: (inner.y + inner.height - tall) as u16, height: tall as u16, ..inner }
}

/// Where the input is written: inside its box, if it has one.
pub open spec fn input_area_in(inner: Rect, input: Seq<char>) -> Rect {
    let chunk: Rect = chunk_area(inner, input_height(inner, input));
    if boxed(inner) {
        geometry::inside(chunk)
    } else {
        chunk
    }
}

/// Whether the chat is laid out in `inner` as its input asks.
pub open spec fn lays_out(
    l: ConsoleLayout,
    inner: Rect,
    input: Seq<char>,
    cursor: int,
    scroll: int,
) -> bool {
    let lines: Seq<Seq<char>> = input_lines(input, wrap_width(inner));
    let at: Caret = caret(input, cursor, wrap_width(inner));
    let height: int = inner_height(inner, boxed(inner), lines.len() as int);
    &&& l.input_boxed == boxed(inner)
    &&& text::texts(l.input_lines_all@) == lines
    &&& l.cursor_line_all == at.line
    &&& l.cursor_col_all == at.cell
    &&& l.input_inner_height == height
    &&& l.input_window_start == window_start(scroll, lines.len() as int, height, at.line)
    &&& l.input_area == (if boxed(inner) {
        geometry::inside(l.input_chunk)
    } else {
        l.input_chunk
    })
    &&& l.thread_area.x == inner.x
    &&& l.thread_area.width == inner.width
    &&& l.input_chunk.x == inner.x
    &&& l.input_chunk.width == inner.width
    &&& settled(inner) ==> l.thread_area == transcript_area(inner, input_height(inner, input))
        && l.input_chunk == chunk_area(inner, input_height(inner, input))
}

/// The heights of the rows of the chat.
pub open spec fn console_heights(tall: u16) -> Seq<Height> {
    seq![Height::Exactly(1), Height::AtLeast(1), Height::Exactly(tall)]
}

/// The layout in an area whose rows are given: the second for the transcript, the third for the
/// input.
fn layout_in(inner: Rect, parts: &Vec<Rect>, input: &str, cursor: usize, scroll: usize) -> (r:
    ConsoleLayout)
    requires
        roomy(inner),
        geometry::divides(
            inner,
            console_heights(input_height(inner, input@) as u16),
            parts@,
        ),
    ensures
        lays_out(r, inner, input@, cursor as int, scroll as int),
{
    proof {
        let tall: int = input_height(inner, input@);
        assert(3 <= tall + 2 <= inner.height);
        if settled(inner) {
            geometry::rows_between(inner, tall as u16);
        }
    }
    let box_it: bool = inner.height >= 5 && inner.width >= 8;
    let width: usize = if box_it {
        (inner.width - 2) as usize
    } else {
        inner.width as usize
    };
    let at: usize = text::min_of(cursor, text::length(input));
    proof {
        reveal_strlit("");
    }
    let (lines, line, col): (Vec<String>, usize, usize) = chat_input::wrap_input_with_cursor(
        "",
        input,
        at,
        width,
    );
    assert(""@ + input@ =~= input@);
    assert(text::texts(lines@).len() == lines@.len());
    let height: usize = input_inner_height_for(inner, box_it, lines.len());
    let start: usize = chat_input_window_start(scroll, lines.len(), height, line);
    ConsoleLayout {
        thread_area: parts[1],
        input_chunk: parts[2],
        input_area: if box_it {
            geometry::inner(parts[2])
        } else {
            parts[2]
        },
        input_boxed: box_it,
        input_lines_all: lines,
        cursor_line_all: line,
        cursor_col_all: col,
        input_inner_height: height,
        input_window_start: start,
    }
}

/// The layout in the area inside the frame; none where there is no room.
pub fn layout_inside(inner: Rect, input: &str, cursor: usize, scroll: usize) -> (r: Option<
    ConsoleLayout,
>)
    ensures
        match r {
            Some(l) => roomy(inner) && lays_out(l, inner, input@, cursor as int, scroll as int),
            None => !roomy(inner),
        },
{
    if inner.width < 4 || inner.height < 3 {
        return None;
    }
    let box_it: bool = inner.height >= 5 && inner.width >= 8;
    let width: usize = if box_it {
        (inner.width - 2) as usize
    } else {
        inner.width as usize
    };
    proof {
        reveal_strlit("");
    }
    let total: usize = text::length(input);
    assert(input@.len() == total);
    let (lines, _line, _col): (Vec<String>, usize, usize) = chat_input::wrap_input_with_cursor(
        "",
        input,
        0,
        width,
    );
    let height: usize = input_inner_height_for(inner, box_it, lines.len());
    let tall: usize = if box_it {
        height + 2
    } else {
        height
    };
    let heights: Vec<Height> = vec![
        Height::Exactly(1),
        Height::AtLeast(1),
        Height::Exactly(tall as u16),
    ];
    assert(text::texts(lines@).len() == lines@.len());
    assert(""@ + input@ =~= input@);
    assert(tall == input_height(inner, input@));
    assert(heights@ =~= console_heights(tall as u16));
    let parts: Vec<Rect> = geometry::split_rows(inner, &heights);
    Some(layout_in(inner, &parts, input, cursor, scroll))
}

/// The layout of the chat in an area of the screen.
pub fn compute_console_layout(area: Rect, st: &AppState) -> (r: Option<ConsoleLayout>)
    ensures
        ({
            let inner: Rect = geometry::inside(area);
            match r {
                Some(l) => roomy(inner) && lays_out(
                    l,
                    inner,
                    st.agents.chat_input@,
                    st.agents.chat_input_cursor as int,
                    st.agents.chat_input_scroll as int,
                ),
                None => !roomy(inner),
            }
        }),
{
    layout_inside(
        geometry::inner(area),
        st.agents.chat_input.as_str(),
        st.agents.chat_input_cursor,
        st.agents.chat_input_scroll,
    )
}

pub fn thread_text_area(area: Rect, st: &AppState) -> (r: Option<Rect>)
    ensures
        ({
            let inner: Rect = geometry::inside(area);
            match r {
                Some(a) => roomy(inner) && a.x == inner.x && a.width == inner.width && (settled(
                    inner,
                ) ==> a == transcript_area(inner, input_height(inner, st.agents.chat_input@))),
                None => !roomy(inner),
            }
        }),
{
    match compute_console_layout(area, st) {
        Some(l) => Some(l.thread_area),
        None => None,
    }
}

pub fn chat_input_text_area(area: Rect, st: &AppState) -> (r: Option<Rect>)
    ensures
        ({
            let inner: Rect = geometry::inside(area);
            match r {
                Some(a) => roomy(inner) && a.width == wrap_width(inner) && (settled(inner) ==> a
                    == input_area_in(inner, st.agents.chat_input@)),
                None => !roomy(inner),
            }
        }),
{
    match compute_console_layout(area, st) {
        Some(l) => Some(l.input_area),
        None => None,
    }
}

/// How far the input of a layout can be scrolled and where it stands.
pub fn scroll_metrics_of(l: &ConsoleLayout) -> (r: ChatInputScrollMetrics)
    ensures
        r.area == l.input_area,
        r.total_lines == l.input_lines_all@.len(),
        r.max_scroll == frames::max_scroll(
            l.input_lines_all@.len() as int,
            l.input_inner_height as int,
        ),
        r.window_start == text::min_int(l.input_window_start as int, r.max_scroll as int),
        r.visible_height == l.input_inner_height,
{
    let total: usize = l.input_lines_all.len();
    let most: usize = text::minus(total, l.input_inner_height);
    ChatInputScrollMetrics {
        area: l.input_area,
        window_start: text::min_of(l.input_window_start, most),
        visible_height: l.input_inner_height,
        max_scroll: most,
        total_lines: total,
    }
}

pub fn chat_input_scroll_metrics(area: Rect, st: &AppState) -> (r: Option<ChatInputScrollMetrics>)
    ensures
        ({
            let inner: Rect = geometry::inside(area);
            let input: Seq<char> = st.agents.chat_input@;
            let total: int = input_lines(input, wrap_width(inner)).len() as int;
            let height: int = inner_height(inner, boxed(inner), total);
            match r {
                Some(m) => roomy(inner) && m.area.width == wrap_width(inner) && (settled(inner)
                    ==> m.area == input_area_in(inner, input)) && m.total_lines
                    == total && m.visible_height == height && m.max_scroll == frames::max_scroll(
                    total,
                    height,
                ) && m.window_start == text::min_int(
                    window_start(
                        st.agents.chat_input_scroll as int,
                        total,
                        height,
                        caret(
                            input,
                            st.agents.chat_input_cursor as int,
                            wrap_width(inner),
                        ).line,
                    ),
                    frames::max_scroll(total, height),
                ),
                None => !roomy(inner),
            }
        }),
{
    match compute_console_layout(area, st) {
        Some(l) => {
            assert(text::texts(l.input_lines_all@).len() == l.input_lines_all@.len());
            Some(scroll_metrics_of(&l))
        },
        None => None,
    }
}

/// The character that a point of the screen stands for in the input: the point itself or, where it
/// is to be kept inside, the nearest one in the input's area.
pub open spec fn char_at_point(
    l: ConsoleLayout,
    input: Seq<char>,
    column: u16,
    row: u16,
    clamp: bool,
) -> Option<int> {
    let total: int = l.input_lines_all@.len() as int;
    let area: Rect = l.input_area;
    let down: u16 = geometry::less(row, area.y);
    let across: u16 = geometry::less(column, area.x);
    let rel_row: int = if clamp {
        text::min_int(down as int, geometry::less(area.height, 1) as int)
    } else {
        down as int
    };
    let rel_col: int = if clamp {
        text::min_int(across as int, geometry::less(area.width, 1) as int)
    } else {
        across as int
    };
    if !geometry::within(column, row, area) && !clamp {
        None
    } else if total == 0 {
        Some(0)
    } else {
        let line: int = text::min_int(l.input_window_start + rel_row, total - 1);
        Some(
            chat_input::index_reaching(
                input,
                chat_input::at_least_one(area.width as int),
                line,
                text::min_int(
                    rel_col,
                    columns::text_columns(l.input_lines_all@[line]@) as int,
                ),
                0,
            ),
        )
    }
}

pub fn char_under_point(l: &ConsoleLayout, input: &str, column: u16, row: u16, clamp: bool) -> (r:
    Option<usize>)
    ensures
        match r {
            Some(k) => char_at_point(*l, input@, column, row, clamp) == Some(k as int),
            None => char_at_point(*l, input@, column, row, clamp) is None,
        },
{
    let area: Rect = l.input_area;
    if !geometry::point_in_rect(column, row, area) && !clamp {
        return None;
    }
    let total: usize = l.input_lines_all.len();
    if total == 0 {
        return Some(0);
    }
    let down: usize = row.saturating_sub(area.y) as usize;
    let across: usize = column.saturating_sub(area.x) as usize;
    let rel_row: usize = if clamp {
        text::min_of(down, area.height.saturating_sub(1) as usize)
    } else {
        down
    };
    let rel_col: usize = if clamp {
        text::min_of(across, area.width.saturating_sub(1) as usize)
    } else {
        across
    };
    let line: usize = text::min_of(l.input_window_start.saturating_add(rel_row), total - 1);
    let widest: usize = columns::text_width(l.input_lines_all[line].as_str());
    Some(
        chat_input::chat_input_char_index_for_display_pos(
            input,
            area.width as usize,
            line,
            text::min_of(rel_col, widest),
        ),
    )
}

pub fn map_chat_input_point_to_cursor(
    area: Rect,
    st: &AppState,
    column: u16,
    row: u16,
    clamp: bool,
) -> (r: Option<usize>)
    ensures
        ({
            let inner: Rect = geometry::inside(area);
            if roomy(inner) {
                exists|l: ConsoleLayout|
                    #[trigger] lays_out(
                        l,
                        inner,
                        st.agents.chat_input@,
                        st.agents.chat_input_cursor as int,
                        st.agents.chat_input_scroll as int,
                    ) && match r {
                        Some(k) => char_at_point(l, st.agents.chat_input@, column, row, clamp)
                            == Some(k as int),
                        None => char_at_point(l, st.agents.chat_input@, column, row, clamp) is None,
                    }
            } else {
                r is None
            }
        }),
{
    match compute_console_layout(area, st) {
        Some(l) => char_under_point(&l, st.agents.chat_input.as_str(), column, row, clamp),
        None => None,
    }
}

/// A line with the characters from `from` to `to` marked.
pub open spec fn marked(s: Seq<char>, from: int, to: int, bg: Color) -> Seq<Piece> {
    if from >= to {
        style::raw_pieces(s)
    } else {
        let rest: Seq<char> = text::tail(s, from);
        style::if_any(text::head(s, from), Style::plain()) + style::if_any(
            text::head(rest, to - from),
            Style::plain().bg(bg),
        ) + style::if_any(text::tail(rest, to - from), Style::plain())
    }
}

pub fn highlight_plain_line(s: &str, from: usize, to: usize, bg: Color) -> (r: Line)
    ensures
        r@ == marked(s@, from as int, to as int, bg),
{
    broadcast use {style::group_lines, style::group_piece_lists};

    if from >= to {
        return style::raw_line(s);
    }
    let left: String = text::head_of(s, from);
    let rest: String = text::tail_of(s, from);
    let mid: String = text::head_of(rest.as_str(), to - from);
    let right: String = text::tail_of(rest.as_str(), to - from);
    let mut spans: Vec<Span> = Vec::new();
    assert(style::pieces(spans@) =~= Seq::<Piece>::empty());
    let ghost first: Seq<Piece> = style::if_any(left@, Style::plain());
    style::push_if_any(&mut spans, left, Style::plain());
    assert(style::pieces(spans@) =~= first);
    style::push_if_any(&mut spans, mid, Style::plain().bg(bg));
    style::push_if_any(&mut spans, right, Style::plain());
    Line { spans }
}

proof fn text_of_any(s: Seq<char>, look: Style)
    ensures
        style::plain_text(style::if_any(s, look)) == s,
{
    reveal_with_fuel(style::plain_text, 2);
    if s.len() > 0 {
        let one: Seq<Piece> = seq![style::piece(s, look)];
        assert(one.drop_last() =~= Seq::<Piece>::empty());
        assert(Seq::<char>::empty() + s =~= s);
    } else {
        assert(s =~= Seq::<char>::empty());
    }
}

/// Marking characters of a line leaves its text as it is.
pub proof fn marking_keeps_text(s: Seq<char>, from: int, to: int, bg: Color)
    requires
        0 <= from < to,
    ensures
        style::plain_text(marked(s, from, to, bg)) == s,
{
    let rest: Seq<char> = text::tail(s, from);
    let a: Seq<Piece> = style::if_any(text::head(s, from), Style::plain());
    let b: Seq<Piece> = style::if_any(text::head(rest, to - from), Style::plain().bg(bg));
    let c: Seq<Piece> = style::if_any(text::tail(rest, to - from), Style::plain());
    text_of_any(text::head(s, from), Style::plain());
    text_of_any(text::head(rest, to - from), Style::plain().bg(bg));
    text_of_any(text::tail(rest, to - from), Style::plain());
    style::plain_text_add(a, b);
    style::plain_text_add(a + b, c);
    text::head_tail(s, from);
    text::head_tail(rest, to - from);
    assert(text::head(s, from) + text::head(rest, to - from) + text::tail(rest, to - from)
        =~= text::head(s, from) + (text::head(rest, to - from) + text::tail(rest, to - from)));
}

/// The characters between the anchor of the selection and the caret.
pub open spec fn selection(len: int, cursor: int, anchor: Option<usize>) -> Option<(int, int)> {
    let at: int = text::min_int(cursor, len);
    match anchor {
        Some(a) => {
            let b: int = text::min_int(a as int, len);
            if b == at {
                None
            } else {
                Some((text::min_int(b, at), text::max_int(b, at)))
            }
        },
        None => None,
    }
}

/// The places between which the input is selected: line and character of each.
pub struct Marked {
    pub start_line: int,
    pub start_col: int,
    pub end_line: int,
    pub end_col: int,
}

/// The places of a selection in an input that is wrapped to `width`.
pub open spec fn marked_places(input: Seq<char>, width: int, from: int, to: int) -> Marked {
    let a: Caret = caret(input, from, width);
    let b: Caret = caret(input, to, width);
    Marked { start_line: a.line, start_col: a.chars, end_line: b.line, end_col: b.chars }
}

/// A line of the input, with what is selected of it marked.
pub open spec fn input_line(s: Seq<char>, line: int, m: Marked, bg: Color) -> Seq<Piece> {
    let len: int = s.len() as int;
    if line < m.start_line || line > m.end_line {
        style::raw_pieces(s)
    } else {
        let from: int = if line == m.start_line {
            m.start_col
        } else {
            0
        };
        let to: int = if line == m.end_line {
            m.end_col
        } else {
            len
        };
        marked(s, text::min_int(from, len), text::min_int(to, len), bg)
    }
}

/// The lines of the input that are shown.
pub open spec fn shown_lines(
    l: ConsoleLayout,
    input: Seq<char>,
    cursor: int,
    anchor: Option<usize>,
    bg: Color,
) -> Seq<Seq<Piece>> {
    let from: int = l.input_window_start as int;
    let total: int = l.input_lines_all@.len() as int;
    let count: int = text::min_int(text::monus(total, from), l.input_inner_height as int);
    let range: Option<(int, int)> = selection(input.len() as int, cursor, anchor);
    let width: int = text::max_int(l.input_area.width as int, 1);
    Seq::new(
        count as nat,
        |i: int|
            match range {
                Some(p) => input_line(
                    l.input_lines_all@[from + i]@,
                    from + i,
                    marked_places(input, width, p.0, p.1),
                    bg,
                ),
                None => style::raw_pieces(l.input_lines_all@[from + i]@),
            },
    )
}

fn selected_range(len: usize, cursor: usize, anchor: Option<usize>) -> (r: Option<(usize, usize)>)
    ensures
        match r {
            Some(p) => selection(len as int, cursor as int, anchor) == Some(
                (p.0 as int, p.1 as int),
            ),
            None => selection(len as int, cursor as int, anchor) is None,
        },
{
    let at: usize = text::min_of(cursor, len);
    match anchor {
        Some(a) => {
            let b: usize = text::min_of(a, len);
            if b == at {
                None
            } else {
                Some((text::min_of(b, at), text::max_of(b, at)))
            }
        },
        None => None,
    }
}

fn paint_input_line(
    s: &str,
    line: usize,
    start: (usize, usize),
    end: (usize, usize),
    bg: Color,
) -> (r: Line)
    ensures
        r@ == input_line(
            s@,
            line as int,
            Marked {
                start_line: start.0 as int,
                start_col: start.1 as int,
                end_line: end.0 as int,
                end_col: end.1 as int,
            },
            bg,
        ),
{
    if line < start.0 || line > end.0 {
        return style::raw_line(s);
    }
    let len: usize = text::length(s);
    let from: usize = if line == start.0 {
        start.1
    } else {
        0
    };
    let to: usize = if line == end.0 {
        end.1
    } else {
        len
    };
    highlight_plain_line(s, text::min_of(from, len), text::min_of(to, len), bg)
}

/// The lines of the input that are shown, with the selection marked.
pub fn visible_input(
    l: &ConsoleLayout,
    input: &str,
    cursor: usize,
    anchor: Option<usize>,
    bg: Color,
) -> (r: Vec<Line>)
    ensures
        style::rows(r@) == shown_lines(*l, input@, cursor as int, anchor, bg),
{
    broadcast use style::group_lines;

    let ghost want: Seq<Seq<Piece>> = shown_lines(*l, input@, cursor as int, anchor, bg);
    let total: usize = l.input_lines_all.len();
    let from: usize = l.input_window_start;
    let count: usize = text::min_of(text::minus(total, from), l.input_inner_height);
    let width: usize = text::max_of(l.input_area.width as usize, 1);
    let range: Option<(usize, usize)> = selected_range(text::length(input), cursor, anchor);
    let (start, end): ((usize, usize), (usize, usize)) = match range {
        Some(p) => (
            chat_input::chat_input_display_pos_for_char_idx(input, width, p.0),
            chat_input::chat_input_display_pos_for_char_idx(input, width, p.1),
        ),
        None => ((0, 0), (0, 0)),
    };
    let mut out: Vec<Line> = Vec::new();
    let mut i: usize = 0;
    assert(style::rows(out@) =~= want.take(0));
    while i < count
        invariant
            i <= count,
            count == 0 || from + count <= total,
            total == l.input_lines_all@.len(),
            from == l.input_window_start,
            count == text::min_int(text::monus(total as int, from as int), l.input_inner_height as int),
            width == text::max_int(l.input_area.width as int, 1),
            want == shown_lines(*l, input@, cursor as int, anchor, bg),
            match range {
                Some(p) => selection(input@.len() as int, cursor as int, anchor) == Some(
                    (p.0 as int, p.1 as int),
                ) && marked_places(input@, width as int, p.0 as int, p.1 as int) == (Marked {
                    start_line: start.0 as int,
                    start_col: start.1 as int,
                    end_line: end.0 as int,
                    end_col: end.1 as int,
                }),
                None => selection(input@.len() as int, cursor as int, anchor) is None,
            },
            style::rows(out@) == want.take(i as int),
        decreases count - i,
    {
        broadcast use style::group_lines;

        let at: usize = from + i;
        let s: &str = l.input_lines_all[at].as_str();
        let line: Line = match range {
            Some(_) => paint_input_line(s, at, start, end, bg),
            None => style::raw_line(s),
        };
        let ghost shown: Seq<Piece> = line@;
        assert(want[i as int] == shown);
        out.push(line);
        i += 1;
        assert(want.take(i as int) =~= want.take(i - 1).push(shown));
    }
    assert(want.take(i as int) =~= want);
    out
}

/// The background of the input: one that a selection stands out from.
pub open spec fn input_bg(focused: bool, theme: Theme) -> Color {
    if focused {
        let first: Color = style::dimmed(theme.cursor_line_bg, theme.background, 75);
        let next: Color = if first == theme.selection_bg {
            theme.cursor_line_bg
        } else {
            first
        };
        if next == theme.selection_bg {
            theme.background
        } else {
            next
        }
    } else {
        let first: Color = style::dimmed(theme.cursor_line_bg, theme.background, 85);
        if first == theme.selection_bg {
            theme.background
        } else {
            first
        }
    }
}

pub fn input_background(focused: bool, theme: &Theme) -> (r: Color)
    ensures
        r == input_bg(focused, *theme),
{
    if focused {
        let first: Color = style::dim_bg_towards(theme.cursor_line_bg, theme.background, 75);
        let next: Color = if first == theme.selection_bg {
            theme.cursor_line_bg
        } else {
            first
        };
        if next == theme.selection_bg {
            theme.background
        } else {
            next
        }
    } else {
        let first: Color = style::dim_bg_towards(theme.cursor_line_bg, theme.background, 85);
        if first == theme.selection_bg {
            theme.background
        } else {
            first
        }
    }
}

/// Whether the caret's line is shown.
pub open spec fn caret_in_window(l: ConsoleLayout) -> bool {
    l.input_window_start <= l.cursor_line_all && l.cursor_line_all < l.input_window_start
        + l.input_inner_height
}

/// The cell of the caret, where it is to be seen.
pub open spec fn caret_cell(l: ConsoleLayout, lit: bool) -> Option<ChatCursor> {
    let across: int = text::min_int(
        l.cursor_col_all as int,
        geometry::less(l.input_area.width, 1) as int,
    );
    let down: int = l.cursor_line_all - l.input_window_start;
    if lit && caret_in_window(l) {
        Some(
            ChatCursor {
                x: geometry::plus(l.input_area.x, across as u16),
                y: geometry::plus(l.input_area.y, down as u16),
            },
        )
    } else {
        None
    }
}

pub fn caret_position(l: &ConsoleLayout, lit: bool) -> (r: Option<ChatCursor>)
    requires
        l.input_inner_height <= u16::MAX,
    ensures
        r == caret_cell(*l, lit),
{
    if !lit || l.cursor_line_all < l.input_window_start {
        return None;
    }
    let down: usize = l.cursor_line_all - l.input_window_start;
    if down >= l.input_inner_height {
        return None;
    }
    let across: usize = text::min_of(
        l.cursor_col_all,
        l.input_area.width.saturating_sub(1) as usize,
    );
    Some(
        ChatCursor {
            x: l.input_area.x.saturating_add(across as u16),
            y: l.input_area.y.saturating_add(down as u16),
        },
    )
}

} // verus!
