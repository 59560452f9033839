//! Where the parts of the popup stand and what is drawn of it.

use vstd::prelude::*;

use crate::agent_console_view::chat_input;
use crate::agent_console_view::chat_input::Caret;
use crate::agent_console_view::console;
use crate::agent_console_view::console::InputPaint;
use crate::agent_console_view::layout;
use crate::agent_console_view::layout::ChatCursor;
use crate::agent_console_view::layout::ConsoleLayout;
use crate::agent_console_view::stages;
use crate::agent_ops_view::popup;
use crate::artifacts_popup::code::SyntaxTables;
use crate::artifacts_popup::content;
use crate::artifacts_popup::content::OpenedEntry;
use crate::columns;
use crate::frames;
use crate::geometry;
use crate::geometry::Height;
use crate::geometry::Rect;
use crate::state::AppState;
use crate::state::SwarmRuntime;
use crate::style;
use crate::style::Line;
use crate::style::Piece;
use crate::style::Span;
use crate::style::Style;
use crate::style::Theme;
use crate::text;

verus! {

/// How far the popup is scrolled, and what is written in its input box.
pub struct PopupView {
    pub scroll: usize,
    pub chat_input: String,
    pub chat_cursor: usize,
    pub chat_scroll: usize,
    pub chat_selection_anchor: Option<usize>,
}

/// The width and height of the popup on a screen.
pub fn preferred_size(screen: Rect) -> (r: (u16, u16))
    ensures
        r.0 == geometry::between(geometry::less(screen.width, 4), 40, 140),
        r.1 == geometry::between(geometry::less(screen.height, 4), 12, 44),
{
    (
        geometry::keep_between(screen.width.saturating_sub(4), 40, 140),
        geometry::keep_between(screen.height.saturating_sub(4), 12, 44),
    )
}

/// Whether the selected artifact is a prompt, which cannot be answered.
pub open spec fn shows_prompt(st: AppState, swarm: SwarmRuntime, area: Rect) -> bool {
    popup::selected(st, Some(&swarm), text::max_int(area.width as int, 1)) matches Some(c)
        && c.kind == "PROMPT"@
}

fn is_prompt(st: &AppState, swarm: &SwarmRuntime, area: Rect) -> (r: bool)
    ensures
        r == shows_prompt(*st, *swarm, area),
{
    popup::is_selected_artifact_prompt(st, swarm, text::max_of(area.width as usize, 1))
}

/// The most lines that the input box shows in a popup so tall inside.
pub open spec fn most_lines(height: int) -> int {
    text::min_int(text::max_int(height / 2, 6), text::max_int(text::monus(height, 4), 1))
}

/// How many lines the input box shows.
pub open spec fn box_lines(inner: Rect, input: Seq<char>) -> int {
    text::min_int(
        text::max_int(
            layout::input_lines(input, text::monus(inner.width as int, 2)).len() as int,
            1,
        ),
        most_lines(inner.height as int),
    )
}

fn box_lines_for(inner: Rect, lines: usize) -> (r: usize)
    ensures
        r == text::min_int(text::max_int(lines as int, 1), most_lines(inner.height as int)),
        1 <= r <= 65533,
{
    let h: usize = inner.height as usize;
    let most: usize = text::min_of(text::max_of(h / 2, 6), text::max_of(text::minus(h, 4), 1));
    text::min_of(text::max_of(lines, 1), most)
}

fn wrap_popup_input(inner: Rect, v: &PopupView) -> (r: (Vec<String>, usize, usize))
    ensures
        ({
            let width: int = text::monus(inner.width as int, 2);
            let at: Caret = layout::caret(v.chat_input@, v.chat_cursor as int, width);
            &&& text::texts(r.0@) == layout::input_lines(v.chat_input@, width)
            &&& r.1 == at.line
            &&& r.2 == at.cell
        }),
{
    let input: &str = v.chat_input.as_str();
    let at: usize = text::min_of(v.chat_cursor, text::length(input));
    proof {
        reveal_strlit("");
        assert(""@ + input@ =~= input@);
    }
    chat_input::wrap_input_with_cursor("", input, at, text::minus(inner.width as usize, 2))
}

/// How tall what is shown above the input box is.
pub open spec fn content_height(st: AppState, swarm: SwarmRuntime, v: PopupView, area: Rect) -> int {
    let inner: Rect = geometry::inside(area);
    if shows_prompt(st, swarm, area) || inner.height < 5 {
        inner.height as int
    } else {
        text::monus(inner.height as int, box_lines(inner, v.chat_input@) + 2)
    }
}

pub fn content_area_height(st: &AppState, swarm: &SwarmRuntime, v: &PopupView, area: Rect) -> (r:
    u16)
    ensures
        r == content_height(*st, *swarm, *v, area),
{
    let inner: Rect = geometry::inner(area);
    if is_prompt(st, swarm, area) || inner.height < 5 {
        return inner.height;
    }
    let (lines, _line, _col): (Vec<String>, usize, usize) = wrap_popup_input(inner, v);
    assert(text::texts(lines@).len() == lines@.len());
    let tall: usize = box_lines_for(inner, lines.len()) + 2;
    inner.height.saturating_sub(tall as u16)
}

/// Whether there is room for an input box.
pub open spec fn roomy(inner: Rect) -> bool {
    inner.width >= 4 && inner.height >= 5
}

/// Whether the popup is laid out inside its frame as its input asks.
pub open spec fn lays_out(l: ConsoleLayout, inner: Rect, v: PopupView) -> bool {
    let width: int = inner.width - 2;
    let lines: Seq<Seq<char>> = layout::input_lines(v.chat_input@, width);
    let at: Caret = layout::caret(v.chat_input@, v.chat_cursor as int, width);
    let height: int = box_lines(inner, v.chat_input@);
    &&& l.input_boxed
    &&& text::texts(l.input_lines_all@) == lines
    &&& l.cursor_line_all == at.line
    &&& l.cursor_col_all == at.cell
    &&& l.input_inner_height == height
    &&& l.input_window_start == layout::window_start(
        v.chat_scroll as int,
        lines.len() as int,
        height,
        at.line,
    )
    &&& geometry::divides(
        inner,
        seq![Height::AtLeast(1), Height::Exactly((height + 2) as u16)],
        seq![l.thread_area, l.input_chunk],
    )
    &&& l.input_area == geometry::inside(l.input_chunk)
}

/// The layout inside the frame.
pub fn popup_layout(inner: Rect, v: &PopupView) -> (r: Option<ConsoleLayout>)
    ensures
        match r {
            Some(l) => roomy(inner) && lays_out(l, inner, *v) && l.input_inner_height <= u16::MAX,
            None => !roomy(inner),
        },
{
    if inner.width < 4 || inner.height < 5 {
        return None;
    }
    let (lines, line, col): (Vec<String>, usize, usize) = wrap_popup_input(inner, v);
    assert(text::texts(lines@).len() == lines@.len());
    let height: usize = box_lines_for(inner, lines.len());
    let tall: usize = height + 2;
    let heights: Vec<Height> = vec![Height::AtLeast(1), Height::Exactly(tall as u16)];
    assert(heights@ =~= seq![Height::AtLeast(1), Height::Exactly(tall as u16)]);
    let parts: Vec<Rect> = geometry::split_rows(inner, &heights);
    let start: usize = layout::chat_input_window_start(v.chat_scroll, lines.len(), height, line);
    let l: ConsoleLayout = ConsoleLayout {
        thread_area: parts[0],
        input_chunk: parts[1],
        input_area: geometry::inner(parts[1]),
        input_boxed: true,
        input_lines_all: lines,
        cursor_line_all: line,
        cursor_col_all: col,
        input_inner_height: height,
        input_window_start: start,
    };
    assert(seq![l.thread_area, l.input_chunk] =~= parts@);
    Some(l)
}

/// A prompt takes all of the popup but its frame.
pub proof fn prompts_take_the_popup(st: AppState, swarm: SwarmRuntime, v: PopupView, area: Rect)
    requires
        shows_prompt(st, swarm, area),
    ensures
        content_height(st, swarm, v, area) == text::monus(area.height as int, 2),
{
}

/// The height that the popup is scrolled by is the one that it is drawn with: with the input, its
/// frame and the frame of the popup it makes up the area.
pub proof fn content_height_is_drawn(
    st: AppState,
    swarm: SwarmRuntime,
    v: PopupView,
    area: Rect,
    l: ConsoleLayout,
)
    requires
        roomy(geometry::inside(area)),
        layout::settled(geometry::inside(area)),
        !shows_prompt(st, swarm, area),
        lays_out(l, geometry::inside(area), v),
    ensures
        content_height(st, swarm, v, area) == l.thread_area.height,
        content_height(st, swarm, v, area) + l.input_area.height + 2 == area.height - 2,
{
    let inner: Rect = geometry::inside(area);
    let tall: int = box_lines(inner, v.chat_input@) + 2;
    assert(1 + tall <= inner.height);
    geometry::rows_above(inner, tall as u16);
    assert(l.thread_area == seq![l.thread_area, l.input_chunk][0]);
}

/// Where the input is written, if it can be.
pub fn chat_input_rect(st: &AppState, swarm: &SwarmRuntime, v: &PopupView, area: Rect) -> (r: Option<
    Rect,
>)
    ensures
        ({
            let inner: Rect = geometry::inside(area);
            if shows_prompt(*st, *swarm, area) || !roomy(inner) {
                r is None
            } else {
                exists|l: ConsoleLayout|
                    #[trigger] lays_out(l, inner, *v) && r == Some(l.input_area)
            }
        }),
        r is Some && layout::settled(geometry::inside(area)) ==> content_height(
            *st,
            *swarm,
            *v,
            area,
        ) + r->0.height + 2 == area.height - 2,
{
    if is_prompt(st, swarm, area) {
        return None;
    }
    match popup_layout(geometry::inner(area), v) {
        Some(l) => {
            proof {
                if layout::settled(geometry::inside(area)) {
                    content_height_is_drawn(*st, *swarm, *v, area, l);
                }
            }
            Some(l.input_area)
        },
        None => None,
    }
}

/// The columns that a line takes; none where there is no such line.
pub open spec fn line_columns(lines: Seq<Seq<char>>, i: int) -> int {
    if 0 <= i < lines.len() {
        columns::text_columns(lines[i]) as int
    } else {
        0
    }
}

/// The character of the input that a point of its area stands for; for a point outside, none or,
/// where it is to be kept inside, the one on the nearest line.
pub open spec fn char_at_point(area: Rect, v: PopupView, column: u16, row: u16, clamp: bool) -> Option<
    int,
> {
    let input: Seq<char> = v.chat_input@;
    let width: int = area.width as int;
    let lines: Seq<Seq<char>> = layout::input_lines(input, width);
    let down: int = geometry::less(row, area.y) as int;
    let across: int = geometry::less(column, area.x) as int;
    if !clamp && !geometry::within(column, row, area) {
        None
    } else if width == 0 {
        Some(0)
    } else {
        let line: int = text::min_int(
            layout::window_start(
                v.chat_scroll as int,
                lines.len() as int,
                area.height as int,
                layout::caret(input, v.chat_cursor as int, width).line,
            ) + (if clamp {
                text::min_int(down, text::monus(area.height as int, 1))
            } else {
                down
            }),
            usize::MAX as int,
        );
        Some(
            chat_input::index_reaching(
                input,
                width,
                line,
                text::min_int(across, line_columns(lines, line)),
                0,
            ),
        )
    }
}

/// The character of the input under a point of its area.
pub fn char_under_point(area: Rect, v: &PopupView, column: u16, row: u16, clamp: bool) -> (r: Option<
    usize,
>)
    ensures
        match r {
            Some(k) => char_at_point(area, *v, column, row, clamp) == Some(k as int),
            None => char_at_point(area, *v, column, row, clamp) is None,
        },
{
    if !clamp && !geometry::point_in_rect(column, row, area) {
        return None;
    }
    let width: usize = area.width as usize;
    if width == 0 {
        return Some(0);
    }
    let input: &str = v.chat_input.as_str();
    let at: usize = text::min_of(v.chat_cursor, text::length(input));
    proof {
        reveal_strlit("");
        assert(""@ + input@ =~= input@);
    }
    let (lines, caret_line, _col): (Vec<String>, usize, usize) = chat_input::wrap_input_with_cursor(
        "",
        input,
        at,
        width,
    );
    assert(text::texts(lines@).len() == lines@.len());
    let height: usize = area.height as usize;
    let start: usize = layout::chat_input_window_start(
        v.chat_scroll,
        lines.len(),
        height,
        caret_line,
    );
    let down: usize = row.saturating_sub(area.y) as usize;
    let across: usize = column.saturating_sub(area.x) as usize;
    let rel_row: usize = if clamp {
        text::min_of(down, text::minus(height, 1))
    } else {
        down
    };
    let line: usize = start.saturating_add(rel_row);
    let widest: usize = if line < lines.len() {
        assert(text::texts(lines@)[line as int] == lines@[line as int]@);
        columns::text_width(lines[line].as_str())
    } else {
        0
    };
    Some(
        chat_input::chat_input_char_index_for_display_pos(
            input,
            width,
            line,
            text::min_of(across, widest),
        ),
    )
}

pub fn map_chat_input_point_to_cursor(
    st: &AppState,
    swarm: &SwarmRuntime,
    v: &PopupView,
    area: Rect,
    column: u16,
    row: u16,
    clamp: bool,
) -> (r: Option<usize>)
    ensures
        ({
            let inner: Rect = geometry::inside(area);
            if shows_prompt(*st, *swarm, area) || !roomy(inner) {
                r is None
            } else {
                exists|l: ConsoleLayout|
                    #[trigger] lays_out(l, inner, *v) && match r {
                        Some(k) => char_at_point(l.input_area, *v, column, row, clamp) == Some(
                            k as int,
                        ),
                        None => char_at_point(l.input_area, *v, column, row, clamp) is None,
                    }
            }
        }),
{
    match chat_input_rect(st, swarm, v, area) {
        Some(input_area) => char_under_point(input_area, v, column, row, clamp),
        None => None,
    }
}

/// The input box of the popup and its caret.
pub struct PopupInput {
    pub layout: ConsoleLayout,
    pub paint: InputPaint,
    pub cursor: Option<ChatCursor>,
}

/// What is drawn inside the frame of the popup.
pub struct PopupBody {
    pub content_area: Rect,
    pub lines: Vec<Line>,
    pub scroll: usize,
    pub max_scroll: usize,
    pub input: Option<PopupInput>,
}

/// The popup as it is drawn.
pub struct PopupPaint {
    pub title: Line,
    pub border: Style,
    pub look: Style,
    pub body: Option<PopupBody>,
}

/// The title of the input box.
pub open spec fn box_title(theme: Theme) -> Seq<Piece> {
    seq![
        style::piece("CHAT BOX"@, Style::plain().fg(theme.border_focused).bold()),
        style::piece("  [ Enter send | Ctrl+↑↓ scroll ]"@, Style::plain().fg(theme.border).dim()),
    ]
}

/// Whether the lines of the artifact are drawn as far as the area shows them.
pub open spec fn draws_content(
    r: PopupBody,
    st: AppState,
    swarm: SwarmRuntime,
    v: PopupView,
    opened: Option<OpenedEntry>,
    syn: SyntaxTables,
    theme: Theme,
) -> bool {
    let all: Seq<Seq<Piece>> = content::popup_rows(
        st,
        swarm,
        opened,
        syn,
        theme,
        r.content_area.width as int,
    );
    let height: int = r.content_area.height as int;
    &&& r.max_scroll == frames::max_scroll(all.len() as int, height)
    &&& r.scroll == frames::scrolled(v.scroll as int, all.len() as int, height)
    &&& style::rows(r.lines@) == frames::window(all, r.scroll as int, height)
}

/// Whether the input box is drawn as its layout asks.
pub open spec fn draws_box(r: PopupInput, v: PopupView, lit: bool, inner: Rect, theme: Theme) -> bool {
    let l: ConsoleLayout = r.layout;
    &&& lays_out(l, inner, v)
    &&& console::draws_input(
        r.paint,
        l,
        box_title(theme),
        v.chat_input@,
        v.chat_cursor as int,
        v.chat_selection_anchor,
        true,
        theme,
    )
    &&& r.cursor == layout::caret_cell(
        l,
        lit && l.input_area.width > 0 && l.input_area.height > 0,
    )
}

/// Whether the inside of the popup is drawn: what the artifact says and, unless it is a prompt, the
/// input box below it.
pub open spec fn draws_body(
    r: PopupBody,
    st: AppState,
    swarm: SwarmRuntime,
    v: PopupView,
    opened: Option<OpenedEntry>,
    syn: SyntaxTables,
    theme: Theme,
    area: Rect,
) -> bool {
    let inner: Rect = geometry::inside(area);
    &&& draws_content(r, st, swarm, v, opened, syn, theme)
    &&& match r.input {
        Some(input) => !shows_prompt(st, swarm, area) && draws_box(
            input,
            v,
            stages::pulse_on(st.frame_count),
            inner,
            theme,
        ) && r.content_area == input.layout.thread_area,
        None => shows_prompt(st, swarm, area) && r.content_area == inner,
    }
}

fn content_in(
    content_area: Rect,
    input: Option<PopupInput>,
    st: &AppState,
    swarm: &SwarmRuntime,
    v: &PopupView,
    opened: &Option<OpenedEntry>,
    syn: &SyntaxTables,
    theme: &Theme,
) -> (r: PopupBody)
    ensures
        r.content_area == content_area,
        r.input == input,
        draws_content(r, *st, *swarm, *v, *opened, *syn, *theme),
{
    let all: Vec<Line> = content::build_lines(st, swarm, opened, syn, theme, content_area.width);
    assert(style::rows(all@).len() == all@.len());
    let height: usize = content_area.height as usize;
    let total: usize = all.len();
    let scroll: usize = frames::clamp_scroll(v.scroll, total, height);
    let lines: Vec<Line> = frames::visible_lines(all, scroll, height);
    PopupBody { content_area, lines, scroll, max_scroll: text::minus(total, height), input }
}

fn paint_box(l: ConsoleLayout, v: &PopupView, lit: bool, theme: &Theme) -> (r: PopupInput)
    requires
        l.input_inner_height <= u16::MAX,
    ensures
        r.layout == l,
        console::draws_input(
            r.paint,
            l,
            box_title(*theme),
            v.chat_input@,
            v.chat_cursor as int,
            v.chat_selection_anchor,
            true,
            *theme,
        ),
        r.cursor == layout::caret_cell(
            l,
            lit && l.input_area.width > 0 && l.input_area.height > 0,
        ),
{
    let spans: Vec<Span> = vec![
        style::span("CHAT BOX", Style::plain().fg(theme.border_focused).bold()),
        style::span("  [ Enter send | Ctrl+↑↓ scroll ]", Style::plain().fg(theme.border).dim()),
    ];
    let title: Line = Line { spans };
    assert(title@ =~= box_title(*theme));
    let paint: InputPaint = console::paint_input(
        &l,
        title,
        v.chat_input.as_str(),
        v.chat_cursor,
        v.chat_selection_anchor,
        true,
        theme,
    );
    let cursor: Option<ChatCursor> = layout::caret_position(
        &l,
        lit && l.input_area.width > 0 && l.input_area.height > 0,
    );
    PopupInput { layout: l, paint, cursor }
}

/// The popup as it is drawn in an area of the screen; only its frame where there is no room.
pub fn render(
    st: &AppState,
    swarm: &SwarmRuntime,
    v: &PopupView,
    opened: &Option<OpenedEntry>,
    syn: &SyntaxTables,
    theme: &Theme,
    area: Rect,
) -> (r: PopupPaint)
    ensures
        r.title@ == seq![
            style::piece(
                if shows_prompt(*st, *swarm, area) {
                    "PROMPT"@
                } else {
                    "ARTIFACT"@
                },
                Style::plain().fg(theme.title_focused).bold(),
            ),
        ],
        r.border == Style::plain().fg(theme.border_focused),
        r.look == Style::plain().bg(theme.background).fg(theme.foreground),
        match r.body {
            Some(b) => roomy(geometry::inside(area)) && draws_body(
                b,
                *st,
                *swarm,
                *v,
                *opened,
                *syn,
                *theme,
                area,
            ),
            None => !roomy(geometry::inside(area)),
        },
{
    let prompt: bool = is_prompt(st, swarm, area);
    let title: Line = style::single(
        text::copy(
            if prompt {
                "PROMPT"
            } else {
                "ARTIFACT"
            },
        ),
        Style::plain().fg(theme.title_focused).bold(),
    );
    let border: Style = Style::plain().fg(theme.border_focused);
    let look: Style = Style::plain().bg(theme.background).fg(theme.foreground);
    let inner: Rect = geometry::inner(area);
    let body: Option<PopupBody> = match popup_layout(inner, v) {
        Some(l) => if prompt {
            Some(content_in(inner, None, st, swarm, v, opened, syn, theme))
        } else {
            let above: Rect = l.thread_area;
            let lit: bool = stages::pulse_on(st.frame_count);
            let input: PopupInput = paint_box(l, v, lit, theme);
            Some(content_in(above, Some(input), st, swarm, v, opened, syn, theme))
        },
        None => None,
    };
    PopupPaint { title, border, look, body }
}

} // verus!
