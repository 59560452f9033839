//! One of several chat panes as it is drawn.

use vstd::prelude::*;

use crate::agent_console_view::console;
use crate::agent_console_view::console::InputPaint;
use crate::agent_console_view::layout;
use crate::agent_console_view::layout::ChatCursor;
use crate::agent_console_view::layout::ConsoleLayout;
use crate::agent_console_view::messages;
use crate::agent_console_view::pane_thread;
use crate::agent_console_view::rows;
use crate::agent_console_view::rows::Row;
use crate::agent_console_view::rows::ThreadRow;
use crate::agent_console_view::stages;
use crate::agent_console_view::thread_lines;
use crate::frames;
use crate::geometry::Rect;
use crate::state::AppState;
use crate::state::SwarmRuntime;
use crate::style;
use crate::style::Line;
use crate::style::Piece;
use crate::style::Span;
use crate::style::Style;
use crate::style::Theme;
use crate::text;

verus! {

/// A chat pane: whom it talks to and what is typed into it.
pub struct PaneSession {
    pub pane_id: usize,
    pub agent_id: String,
    /// The mission of the swarm that runs in the pane.
    pub mission_id: Option<String>,
    /// The mission that the pane's own messages carry.
    pub chat_mission_id: String,
    pub has_run_mission: bool,
    pub chat_input: String,
    pub chat_input_cursor: usize,
    pub chat_input_selection_anchor: Option<usize>,
    pub chat_thread_scroll: usize,
    pub swarm_template: String,
    pub swarm_mission: String,
}

/// The mission that a pane shows: that of its swarm, or else its own.
pub open spec fn mission_of(pane: PaneSession) -> Option<Seq<char>> {
    match pane.mission_id {
        Some(m) => Some(m@),
        None => if pane.chat_mission_id@.len() > 0 {
            Some(pane.chat_mission_id@)
        } else {
            None
        },
    }
}

fn find_mission_of<'a>(pane: &'a PaneSession) -> (r: Option<&'a str>)
    ensures
        text::opt_str(r) == mission_of(*pane),
{
    match &pane.mission_id {
        Some(m) => Some(m.as_str()),
        None => if text::length(pane.chat_mission_id.as_str()) > 0 {
            Some(pane.chat_mission_id.as_str())
        } else {
            None
        },
    }
}

/// The title of a pane's input box.
pub open spec fn box_title(st: AppState, pane: PaneSession, focused: bool, theme: Theme) -> Seq<Piece> {
    let badge: Style = Style::plain().fg(theme.background).bold();
    seq![
        console::box_name(focused, theme),
        style::piece("  "@, Style::plain()),
        style::piece(
            " t="@ + pane.swarm_template@ + " "@,
            badge.bg(theme.border_focused),
        ),
        style::piece(" "@, Style::plain()),
        style::piece(" m="@ + pane.swarm_mission@ + " "@, badge.bg(theme.hl.operator)),
    ] + console::queued_pieces(console::waiting(st, Some(pane.agent_id@)), theme)
}

fn box_title_line(st: &AppState, pane: &PaneSession, focused: bool, theme: &Theme) -> (r: Line)
    ensures
        r@ == box_title(*st, *pane, focused, *theme),
{
    let badge: Style = Style::plain().fg(theme.background).bold();
    let mut spans: Vec<Span> = vec![
        console::box_name_span(focused, theme),
        style::span("  ", Style::plain()),
        style::styled(
            text::cat3(" t=", pane.swarm_template.as_str(), " "),
            badge.bg(theme.border_focused),
        ),
        style::span(" ", Style::plain()),
        style::styled(
            text::cat3(" m=", pane.swarm_mission.as_str(), " "),
            badge.bg(theme.hl.operator),
        ),
    ];
    assert(style::pieces(spans@) =~= seq![
        console::box_name(focused, *theme),
        style::piece("  "@, Style::plain()),
        style::piece(
            " t="@ + pane.swarm_template@ + " "@,
            badge.bg(theme.border_focused),
        ),
        style::piece(" "@, Style::plain()),
        style::piece(" m="@ + pane.swarm_mission@ + " "@, badge.bg(theme.hl.operator)),
    ]);
    console::push_queued(
        &mut spans,
        console::queued_count(st, Some(pane.agent_id.as_str())),
        theme,
    );
    Line { spans }
}

/// The transcript of a pane.
pub open spec fn pane_transcript(
    st: AppState,
    swarm: Option<&SwarmRuntime>,
    pane: PaneSession,
    order: Seq<int>,
    exec_label: Seq<char>,
    width: int,
) -> Seq<Row> {
    let all: Seq<Row> = pane_thread::pane_rows(
        st,
        swarm,
        order,
        exec_label,
        true,
        Some(pane.agent_id@),
        mission_of(pane),
        width,
    );
    if pane.has_run_mission {
        all
    } else {
        pane_thread::all_unlinked(all)
    }
}

/// A pane as it is drawn.
pub struct PanePaint {
    pub context_area: Rect,
    pub context: Line,
    pub thread_area: Rect,
    pub thread: Vec<Line>,
    pub scroll: usize,
    pub max_scroll: usize,
    pub input: InputPaint,
    pub cursor: Option<ChatCursor>,
}

/// Whether a pane is drawn as the state asks.
pub open spec fn draws(
    r: PanePaint,
    l: ConsoleLayout,
    st: AppState,
    swarm: Option<&SwarmRuntime>,
    pane: PaneSession,
    order: Seq<int>,
    exec_label: Seq<char>,
    focused: bool,
    theme: Theme,
) -> bool {
    let all: Seq<Row> = pane_transcript(
        st,
        swarm,
        pane,
        order,
        exec_label,
        text::max_int(l.thread_area.width as int, 1),
    );
    let total: int = all.len() as int;
    let height: int = text::max_int(l.thread_area.height as int, 1);
    let id: Seq<char> = pane.agent_id@;
    &&& r.context@ == console::context_pieces(
        "agent="@,
        id,
        pane.mission_id is Some,
        (
            console::context_pct(st, id, mission_of(pane)),
            console::context_used(st, id, mission_of(pane)),
            stages::window(st, id),
        ),
        theme,
    )
    &&& r.thread_area == l.thread_area
    &&& r.max_scroll == frames::max_scroll(total, height)
    &&& r.scroll == frames::scrolled(pane.chat_thread_scroll as int, total, height)
    &&& style::rows(r.thread@) == thread_lines::lines(
        all,
        r.scroll as int,
        frames::shown(total, height),
        theme,
    )
    &&& console::draws_input(
        r.input,
        l,
        box_title(st, pane, focused, theme),
        pane.chat_input@,
        pane.chat_input_cursor as int,
        pane.chat_input_selection_anchor,
        focused,
        theme,
    )
    &&& r.cursor == layout::caret_cell(l, focused && stages::pulse_on(st.frame_count))
}

/// What is drawn of a pane in a layout. `order` are the messages that belong to it, and
/// `exec_label` is what is said of its swarm while it executes.
pub fn render_pane(
    l: &ConsoleLayout,
    context_area: Rect,
    st: &AppState,
    swarm: Option<&SwarmRuntime>,
    pane: &PaneSession,
    order: &Vec<usize>,
    exec_label: &str,
    focused: bool,
    theme: &Theme,
) -> (r: PanePaint)
    requires
        l.input_inner_height <= u16::MAX,
        forall|k: int| 0 <= k < order@.len() ==> (#[trigger] order@[k]) < st.agents.messages@.len(),
    ensures
        draws(
            r,
            *l,
            *st,
            swarm,
            *pane,
            messages::ints(order@),
            exec_label@,
            focused,
            *theme,
        ),
        r.context_area == context_area,
{
    let id: &str = pane.agent_id.as_str();
    let mission: Option<&str> = find_mission_of(pane);
    let width: usize = text::max_of(l.thread_area.width as usize, 1);
    let height: usize = text::max_of(l.thread_area.height as usize, 1);
    let all: Vec<ThreadRow> = pane_thread::build_pane_thread_rows_with_breathers_for_pane(
        st,
        swarm,
        order,
        exec_label,
        Some(pane.pane_id),
        Some(id),
        mission,
        width,
        !pane.has_run_mission,
    );
    let total: usize = all.len();
    assert(rows::rows(all@).len() == total);
    let from: usize = frames::clamp_scroll(pane.chat_thread_scroll, total, height);
    let count: usize = text::min_of(total, height);
    let ctx: (Option<u32>, Option<u32>, Option<u32>) = (
        console::resolve_context_pct(st, id, mission),
        console::resolve_context_used(st, id, mission),
        stages::find_window(st, id),
    );
    let title: Line = box_title_line(st, pane, focused, theme);
    PanePaint {
        context_area,
        context: console::context_line("agent=", id, pane.mission_id.is_some(), ctx, theme),
        thread_area: l.thread_area,
        thread: thread_lines::thread_lines(&all, from, count, theme),
        scroll: from,
        max_scroll: text::minus(total, height),
        input: console::paint_input(
            l,
            title,
            pane.chat_input.as_str(),
            pane.chat_input_cursor,
            pane.chat_input_selection_anchor,
            focused,
            theme,
        ),
        cursor: layout::caret_position(l, focused && stages::pulse_on(st.frame_count)),
    }
}

} // verus!
