//! The chat as it is drawn.

use vstd::prelude::*;

use crate::agent_console_view::breather;
use crate::agent_console_view::cache;
use crate::agent_console_view::cache::RowsCache;
use crate::agent_console_view::layout;
use crate::agent_console_view::layout::ChatCursor;
use crate::agent_console_view::layout::ConsoleLayout;
use crate::agent_console_view::rows;
use crate::agent_console_view::rows::Row;
use crate::agent_console_view::rows::ThreadRow;
use crate::agent_console_view::stages;
use crate::agent_console_view::thread;
use crate::agent_console_view::thread_lines;
use crate::agent_console_view::turns;
use crate::frames;
use crate::frames::PaneFrame;
use crate::geometry;
use crate::geometry::Height;
use crate::geometry::Rect;
use crate::state;
use crate::state::AgentLaneKind;
use crate::state::AppState;
use crate::state::SwarmRuntime;
use crate::style;
use crate::style::Line;
use crate::style::Piece;
use crate::style::Span;
use crate::style::Style;
use crate::style::Theme;
use crate::text;

verus! {

/// The scroll position that stays at the end of the transcript.
pub const CONSOLE_SCROLL_BOTTOM: usize = usize::MAX;

/// How much of its context an agent has left; all of it where nothing is known.
pub open spec fn context_pct(st: AppState, id: Seq<char>, mission: Option<Seq<char>>) -> Option<u32> {
    match turns::lane(st, id) {
        Some(agent) => if agent.kind is Codex || agent.kind is Claude {
            match stages::left_pct(st, agent.kind is Claude, id, mission) {
                Some(p) => Some(p),
                None => Some(100u32),
            }
        } else {
            None
        },
        None => None,
    }
}

/// How many tokens an agent has used.
pub open spec fn context_used(st: AppState, id: Seq<char>, mission: Option<Seq<char>>) -> Option<u32> {
    match turns::lane(st, id) {
        Some(agent) => if agent.kind is Codex || agent.kind is Claude {
            stages::used_tokens(st, agent.kind is Claude, id, mission)
        } else {
            None
        },
        None => None,
    }
}

pub fn resolve_context_pct(st: &AppState, id: &str, mission: Option<&str>) -> (r: Option<u32>)
    ensures
        r == context_pct(*st, id@, text::opt_str(mission)),
{
    match turns::find_lane(st, id) {
        Some(agent) => match agent.kind {
            AgentLaneKind::Codex => match stages::find_left_pct(st, false, id, mission) {
                Some(p) => Some(p),
                None => Some(100u32),
            },
            AgentLaneKind::Claude => match stages::find_left_pct(st, true, id, mission) {
                Some(p) => Some(p),
                None => Some(100u32),
            },
            _ => None,
        },
        None => None,
    }
}

pub fn resolve_context_used(st: &AppState, id: &str, mission: Option<&str>) -> (r: Option<u32>)
    ensures
        r == context_used(*st, id@, text::opt_str(mission)),
{
    match turns::find_lane(st, id) {
        Some(agent) => match agent.kind {
            AgentLaneKind::Codex => stages::find_used_tokens(st, false, id, mission),
            AgentLaneKind::Claude => stages::find_used_tokens(st, true, id, mission),
            _ => None,
        },
        None => None,
    }
}

/// What is known of a context, in short.
pub open spec fn context_text(pct: Option<u32>, used: Option<u32>, max: Option<u32>) -> Seq<char> {
    match (pct, used, max) {
        (Some(p), Some(u), Some(m)) => text::decimal(p as nat) + "% "@ + stages::short_count(
            u as nat,
        ) + "/"@ + stages::short_count(m as nat),
        (Some(p), None, Some(m)) => text::decimal(p as nat) + "%/"@ + stages::short_count(m as nat),
        (Some(p), _, None) => text::decimal(p as nat) + "%"@,
        (None, Some(u), Some(m)) => stages::short_count(u as nat) + "/"@ + stages::short_count(
            m as nat,
        ),
        (None, None, Some(m)) => stages::short_count(m as nat),
        (None, _, None) => "--"@,
    }
}

pub fn format_context_text(pct: Option<u32>, used: Option<u32>, max: Option<u32>) -> (r: String)
    ensures
        r@ == context_text(pct, used, max),
{
    match (pct, used, max) {
        (Some(p), Some(u), Some(m)) => text::cat5(
            text::decimal_u64(p as u64).as_str(),
            "% ",
            stages::format_token_count_short(u).as_str(),
            "/",
            stages::format_token_count_short(m).as_str(),
        ),
        (Some(p), None, Some(m)) => text::cat3(
            text::decimal_u64(p as u64).as_str(),
            "%/",
            stages::format_token_count_short(m).as_str(),
        ),
        (Some(p), _, None) => text::cat2(text::decimal_u64(p as u64).as_str(), "%"),
        (None, Some(u), Some(m)) => text::cat3(
            stages::format_token_count_short(u).as_str(),
            "/",
            stages::format_token_count_short(m).as_str(),
        ),
        (None, None, Some(m)) => stages::format_token_count_short(m),
        (None, _, None) => text::copy("--"),
    }
}

/// The line above the transcript: a label with its value, and what is known of the context.
pub open spec fn context_pieces(
    label: Seq<char>,
    value: Seq<char>,
    lit: bool,
    ctx: (Option<u32>, Option<u32>, Option<u32>),
    theme: Theme,
) -> Seq<Piece> {
    let dim: Style = Style::plain().fg(theme.border).dim();
    seq![
        style::piece(label, dim),
        style::piece(
            value,
            if lit {
                Style::plain().fg(theme.title_focused).bold()
            } else {
                dim
            },
        ),
        style::piece("     "@, dim),
        style::piece("ctx="@, dim),
        style::piece(
            context_text(ctx.0, ctx.1, ctx.2),
            if ctx.0 is Some || ctx.1 is Some || ctx.2 is Some {
                Style::plain().fg(theme.accent).bold()
            } else {
                dim
            },
        ),
    ]
}

pub fn context_line(
    label: &str,
    value: &str,
    lit: bool,
    ctx: (Option<u32>, Option<u32>, Option<u32>),
    theme: &Theme,
) -> (r: Line)
    ensures
        r@ == context_pieces(label@, value@, lit, ctx, *theme),
{
    let dim: Style = Style::plain().fg(theme.border).dim();
    let known: bool = ctx.0.is_some() || ctx.1.is_some() || ctx.2.is_some();
    let spans: Vec<Span> = vec![
        style::span(label, dim),
        style::span(
            value,
            if lit {
                Style::plain().fg(theme.title_focused).bold()
            } else {
                dim
            },
        ),
        style::span("     ", dim),
        style::span("ctx=", dim),
        style::styled(
            format_context_text(ctx.0, ctx.1, ctx.2),
            if known {
                Style::plain().fg(theme.accent).bold()
            } else {
                dim
            },
        ),
    ];
    let r: Line = Line { spans };
    assert(r@ =~= context_pieces(label@, value@, lit, ctx, *theme));
    r
}

/// What is known of the context of the open agent.
pub open spec fn open_context(st: AppState) -> (Option<u32>, Option<u32>, Option<u32>) {
    match st.agents.context_agent {
        Some(a) => {
            let m: Option<Seq<char>> = text::opt_text(st.agents.context_mission);
            (context_pct(st, a@, m), context_used(st, a@, m), stages::window(st, a@))
        },
        None => (None, None, None),
    }
}

fn find_open_context(st: &AppState) -> (r: (Option<u32>, Option<u32>, Option<u32>))
    ensures
        r == open_context(*st),
{
    match &st.agents.context_agent {
        Some(a) => {
            let m: Option<&str> = state::as_str(&st.agents.context_mission);
            (
                resolve_context_pct(st, a.as_str(), m),
                resolve_context_used(st, a.as_str(), m),
                stages::find_window(st, a.as_str()),
            )
        },
        None => (None, None, None),
    }
}

/// How many turns of an agent wait behind the one at work.
pub open spec fn waiting(st: AppState, id: Option<Seq<char>>) -> int {
    match id {
        Some(i) => match turns::lane(st, i) {
            Some(agent) => text::monus(
                agent.queue_len as int,
                if turns::active(st, agent.id@) {
                    1int
                } else {
                    0
                },
            ),
            None => 0,
        },
        None => 0,
    }
}

pub fn queued_count(st: &AppState, id: Option<&str>) -> (r: usize)
    ensures
        r == waiting(*st, text::opt_str(id)),
{
    match id {
        Some(i) => match turns::find_lane(st, i) {
            Some(agent) => {
                let running: bool = turns::is_active(st, agent.id.as_str());
                text::minus(
                    agent.queue_len,
                    if running {
                        1
                    } else {
                        0
                    },
                )
            },
            None => 0,
        },
        None => 0,
    }
}

/// The badge on turns that wait; nothing where none does.
pub open spec fn queued_pieces(count: int, theme: Theme) -> Seq<Piece> {
    if count > 0 {
        seq![
            style::piece("  "@, Style::plain()),
            style::piece(
                if count > 1 {
                    " Queued "@ + text::decimal(count as nat) + " "@
                } else {
                    " Queued "@
                },
                Style::plain().fg(theme.background).bg(theme.accent_2).bold(),
            ),
        ]
    } else {
        Seq::empty()
    }
}

pub fn push_queued(spans: &mut Vec<Span>, count: usize, theme: &Theme)
    ensures
        style::pieces(final(spans)@) == style::pieces(old(spans)@) + queued_pieces(
            count as int,
            *theme,
        ),
{
    broadcast use {style::group_lines, style::group_piece_lists};

    if count > 0 {
        let ghost before: Seq<Piece> = style::pieces(spans@);
        spans.push(style::span("  ", Style::plain()));
        let label: String = if count > 1 {
            text::cat3(" Queued ", text::decimal_usize(count).as_str(), " ")
        } else {
            text::copy(" Queued ")
        };
        spans.push(
            style::styled(
                label,
                Style::plain().fg(theme.background).bg(theme.accent_2).bold(),
            ),
        );
        assert(style::pieces(spans@) =~= before + queued_pieces(count as int, *theme));
    }
}

/// The name of the input box.
pub open spec fn box_name(focused: bool, theme: Theme) -> Piece {
    style::piece(
        "CHAT BOX"@,
        Style::plain().fg(
            if focused {
                theme.border_focused
            } else {
                theme.border
            },
        ).bold(),
    )
}

pub fn box_name_span(focused: bool, theme: &Theme) -> (r: Span)
    ensures
        r@ == box_name(focused, *theme),
{
    style::span(
        "CHAT BOX",
        Style::plain().fg(
            if focused {
                theme.border_focused
            } else {
                theme.border
            },
        ).bold(),
    )
}

/// A badge with a setting of swarms; nothing where it is not set.
pub open spec fn setting_pieces(label: Seq<char>, value: Seq<char>, look: Style) -> Seq<Piece> {
    let v: Seq<char> = text::trimmed(value);
    if v.len() > 0 {
        seq![style::piece("  "@, Style::plain()), style::piece(label + v + " "@, look)]
    } else {
        Seq::empty()
    }
}

fn push_setting(spans: &mut Vec<Span>, label: &str, value: &str, look: Style)
    ensures
        style::pieces(final(spans)@) == style::pieces(old(spans)@) + setting_pieces(
            label@,
            value@,
            look,
        ),
{
    broadcast use {style::group_lines, style::group_piece_lists};

    let v: String = text::trim(value);
    if text::length(v.as_str()) > 0 {
        let ghost before: Seq<Piece> = style::pieces(spans@);
        spans.push(style::span("  ", Style::plain()));
        spans.push(style::styled(text::cat3(label, v.as_str(), " "), look));
        assert(style::pieces(spans@) =~= before + setting_pieces(label@, value@, look));
    }
}

/// The title of the input box.
pub open spec fn box_title(st: AppState, focused: bool, theme: Theme) -> Seq<Piece> {
    let badge: Style = Style::plain().fg(theme.background).bold();
    seq![box_name(focused, theme)] + setting_pieces(
        " t="@,
        st.agents.swarm_default_template@,
        badge.bg(theme.border_focused),
    ) + setting_pieces(
        " m="@,
        st.agents.swarm_default_mission@,
        badge.bg(theme.hl.operator),
    ) + queued_pieces(waiting(st, text::opt_text(st.agents.context_agent)), theme)
}

fn box_title_line(st: &AppState, focused: bool, theme: &Theme) -> (r: Line)
    ensures
        r@ == box_title(*st, focused, *theme),
{
    broadcast use {style::group_lines, style::group_piece_lists};

    let badge: Style = Style::plain().fg(theme.background).bold();
    let mut spans: Vec<Span> = vec![box_name_span(focused, theme)];
    assert(style::pieces(spans@) =~= seq![box_name(focused, *theme)]);
    push_setting(
        &mut spans,
        " t=",
        st.agents.swarm_default_template.as_str(),
        badge.bg(theme.border_focused),
    );
    push_setting(
        &mut spans,
        " m=",
        st.agents.swarm_default_mission.as_str(),
        badge.bg(theme.hl.operator),
    );
    push_queued(&mut spans, queued_count(st, state::as_str(&st.agents.context_agent)), theme);
    Line { spans }
}

/// The input box as it is drawn.
pub struct InputPaint {
    /// Whether there is a box, in `chunk`, with this title and border.
    pub boxed: bool,
    pub chunk: Rect,
    pub title: Line,
    pub border: Style,
    pub rounded: bool,
    /// The lines of the input, in `area`.
    pub area: Rect,
    pub lines: Vec<Line>,
    pub look: Style,
}

/// Whether the input is drawn as its layout asks.
pub open spec fn draws_input(
    r: InputPaint,
    l: ConsoleLayout,
    title: Seq<Piece>,
    input: Seq<char>,
    cursor: int,
    anchor: Option<usize>,
    focused: bool,
    theme: Theme,
) -> bool {
    &&& r.boxed == l.input_boxed
    &&& r.chunk == l.input_chunk
    &&& r.title@ == title
    &&& r.border == Style::plain().fg(
        if focused {
            theme.border_focused
        } else {
            theme.border
        },
    )
    &&& r.rounded == focused
    &&& r.area == l.input_area
    &&& style::rows(r.lines@) == layout::shown_lines(l, input, cursor, anchor, theme.selection_bg)
    &&& r.look == Style::plain().fg(theme.foreground).bg(layout::input_bg(focused, theme))
}

pub fn paint_input(
    l: &ConsoleLayout,
    title: Line,
    input: &str,
    cursor: usize,
    anchor: Option<usize>,
    focused: bool,
    theme: &Theme,
) -> (r: InputPaint)
    ensures
        draws_input(r, *l, title@, input@, cursor as int, anchor, focused, *theme),
{
    let bg: style::Color = layout::input_background(focused, theme);
    InputPaint {
        boxed: l.input_boxed,
        chunk: l.input_chunk,
        title,
        border: Style::plain().fg(
            if focused {
                theme.border_focused
            } else {
                theme.border
            },
        ),
        rounded: focused,
        area: l.input_area,
        lines: layout::visible_input(l, input, cursor, anchor, theme.selection_bg),
        look: Style::plain().fg(theme.foreground).bg(bg),
    }
}

/// The transcript: the kept rows, the agents at work below their prompts, and below all of them the
/// table of those that are not shown there.
pub open spec fn transcript(
    c: RowsCache,
    st: AppState,
    swarm: Option<&SwarmRuntime>,
    width: int,
) -> Seq<Row> {
    let pulse: bool = stages::pulse_on(st.frame_count);
    let places: Seq<(int, int)> = cache::slots(c.slots@);
    let shown: Seq<Seq<char>> = cache::shown_from(st, places, 0);
    cache::merged(st, rows::rows(c.rows@), places, pulse, width, 0, 0) + (if thread::some_left(
        st,
        shown,
        None,
    ) || (turns::swarm_is_open(st) && shown.len() == 0) {
        breather::table_rows(st, swarm, pulse, width)
    } else {
        Seq::empty()
    })
}

/// The rows of the transcript.
pub fn transcript_rows(c: &RowsCache, st: &AppState, swarm: Option<&SwarmRuntime>, width: usize) -> (r:
    Vec<ThreadRow>)
    ensures
        rows::rows(r@) == transcript(*c, *st, swarm, width as int),
{
    broadcast use rows::group_rows;

    let pulse: bool = stages::pulse_on(st.frame_count);
    let (mut out, shown): (Vec<ThreadRow>, Vec<String>) = cache::combined_rows(c, st, pulse, width);
    assert(text::texts(shown@).len() == shown@.len());
    if thread::is_some_left(st, &shown, None) || (turns::is_swarm_open(st) && shown.len() == 0) {
        rows::append_rows(
            &mut out,
            breather::breather_rows_for_user_prompt(st, swarm, pulse, width),
        );
    }
    out
}

/// How far the transcript is scrolled.
pub open spec fn scroll(wanted: int, total: int, height: int) -> int {
    if wanted == CONSOLE_SCROLL_BOTTOM {
        frames::max_scroll(total, height)
    } else {
        frames::scrolled(wanted, total, height)
    }
}

/// The chat as it is drawn, where there is room for it.
pub struct ConsoleBody {
    pub layout: ConsoleLayout,
    pub context_area: Rect,
    pub context: Line,
    pub thread: Vec<Line>,
    pub scroll: usize,
    pub max_scroll: usize,
    pub input: InputPaint,
    pub cursor: Option<ChatCursor>,
}

/// Whether the chat is drawn as the state asks.
pub open spec fn draws(
    r: ConsoleBody,
    c: RowsCache,
    st: AppState,
    swarm: Option<&SwarmRuntime>,
    focused: bool,
    theme: Theme,
) -> bool {
    let l: ConsoleLayout = r.layout;
    let all: Seq<Row> = transcript(c, st, swarm, text::max_int(l.thread_area.width as int, 1));
    let total: int = all.len() as int;
    let height: int = text::max_int(l.thread_area.height as int, 1);
    &&& r.context@ == context_pieces(
        "mission="@,
        match st.agents.context_mission {
            Some(m) => m@,
            None => "--"@,
        },
        st.agents.context_mission is Some,
        open_context(st),
        theme,
    )
    &&& r.max_scroll == frames::max_scroll(total, height)
    &&& r.scroll == scroll(st.agents.console_scroll as int, total, height)
    &&& style::rows(r.thread@) == thread_lines::lines(
        all,
        r.scroll as int,
        frames::shown(total, height),
        theme,
    )
    &&& draws_input(
        r.input,
        l,
        box_title(st, focused, theme),
        st.agents.chat_input@,
        st.agents.chat_input_cursor as int,
        st.agents.chat_input_selection_anchor,
        focused,
        theme,
    )
    &&& r.cursor == layout::caret_cell(l, focused && stages::pulse_on(st.frame_count))
}

/// What is drawn of the chat in a layout.
pub fn console_body(
    l: ConsoleLayout,
    context_area: Rect,
    c: &RowsCache,
    st: &AppState,
    swarm: Option<&SwarmRuntime>,
    focused: bool,
    theme: &Theme,
) -> (r: ConsoleBody)
    requires
        l.input_inner_height <= u16::MAX,
    ensures
        draws(r, *c, *st, swarm, focused, *theme),
        r.layout == l,
        r.context_area == context_area,
{
    let width: usize = text::max_of(l.thread_area.width as usize, 1);
    let height: usize = text::max_of(l.thread_area.height as usize, 1);
    let all: Vec<ThreadRow> = transcript_rows(c, st, swarm, width);
    let total: usize = all.len();
    assert(rows::rows(all@).len() == total);
    let most: usize = text::minus(total, height);
    let from: usize = if st.agents.console_scroll == CONSOLE_SCROLL_BOTTOM {
        most
    } else {
        text::min_of(st.agents.console_scroll, most)
    };
    let count: usize = text::min_of(total, height);
    let mission: &str = match &st.agents.context_mission {
        Some(m) => m.as_str(),
        None => "--",
    };
    let title: Line = box_title_line(st, focused, theme);
    let input: InputPaint = paint_input(
        &l,
        title,
        st.agents.chat_input.as_str(),
        st.agents.chat_input_cursor,
        st.agents.chat_input_selection_anchor,
        focused,
        theme,
    );
    let cursor: Option<ChatCursor> = layout::caret_position(
        &l,
        focused && stages::pulse_on(st.frame_count),
    );
    ConsoleBody {
        context_area,
        context: context_line(
            "mission=",
            mission,
            st.agents.context_mission.is_some(),
            find_open_context(st),
            theme,
        ),
        thread: thread_lines::thread_lines(&all, from, count, theme),
        scroll: from,
        max_scroll: most,
        input,
        cursor,
        layout: l,
    }
}

/// The chat as it is drawn: its frame and what is inside.
pub struct ConsolePaint {
    pub frame: PaneFrame,
    pub cache: RowsCache,
    pub body: Option<ConsoleBody>,
}

pub fn render(
    area: Rect,
    st: &AppState,
    swarm: &SwarmRuntime,
    kept: RowsCache,
    event_epoch: u64,
    focused: bool,
    theme: &Theme,
) -> (r: ConsolePaint)
    ensures
        r.frame == frames::pane_frame(focused, *theme),
        ({
            let inner: Rect = geometry::inside(area);
            match r.body {
                Some(b) => layout::roomy(inner) && layout::lays_out(
                    b.layout,
                    inner,
                    st.agents.chat_input@,
                    st.agents.chat_input_cursor as int,
                    st.agents.chat_input_scroll as int,
                ) && draws(b, r.cache, *st, Some(swarm), focused, *theme) && (layout::settled(inner)
                    ==> b.context_area == (Rect { height: 1, ..inner })) && (cache::fits(
                    kept,
                    *st,
                    text::max_int(inner.width as int, 1),
                ) ==> r.cache == kept) && (!cache::fits(
                    kept,
                    *st,
                    text::max_int(inner.width as int, 1),
                ) ==> cache::is_fresh(
                    r.cache,
                    *st,
                    Some(swarm),
                    text::max_int(inner.width as int, 1),
                )),
                None => !layout::roomy(inner) && r.cache == kept,
            }
        }),
{
    let frame: PaneFrame = frames::pane_frame(focused, *theme);
    let l: ConsoleLayout = match layout::compute_console_layout(area, st) {
        Some(l) => l,
        None => {
            return ConsolePaint { frame, cache: kept, body: None };
        },
    };
    let heights: Vec<Height> = vec![
        Height::Exactly(1),
        Height::AtLeast(1),
        Height::Exactly(l.input_chunk.height),
    ];
    let parts: Vec<Rect> = geometry::split_rows(geometry::inner(area), &heights);
    proof {
        let inner: Rect = geometry::inside(area);
        let tall: int = layout::input_height(inner, st.agents.chat_input@);
        assert(tall + 2 <= inner.height);
        if layout::settled(inner) {
            assert(l.input_chunk.height == tall);
            assert(heights@ =~= layout::console_heights(tall as u16));
            geometry::rows_between(inner, tall as u16);
        }
    }
    let width: usize = text::max_of(l.thread_area.width as usize, 1);
    let fresh: RowsCache = cache::refresh_thread_rows_cache(
        kept,
        st,
        Some(swarm),
        width,
        event_epoch,
    );
    let body: ConsoleBody = console_body(l, parts[0], &fresh, st, Some(swarm), focused, theme);
    ConsolePaint { frame, cache: fresh, body: Some(body) }
}

} // verus!
