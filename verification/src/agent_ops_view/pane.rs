//! The pane on the agents: the lines of the tab that is open and how they are drawn.

use vstd::prelude::*;

use crate::agent_ops_view::alerts;
use crate::agent_ops_view::artifacts;
use crate::agent_ops_view::artifacts_styled;
use crate::agent_ops_view::dag;
use crate::agent_ops_view::dag_styled;
use crate::agent_ops_view::diagnostics;
use crate::agent_ops_view::mcp;
use crate::agent_ops_view::missions;
use crate::agent_ops_view::popup;
use crate::agent_ops_view::roster_lines;
use crate::agent_ops_view::roster_styled;
use crate::agent_ops_view::styles;
use crate::agent_ops_view::tabs;
use crate::frames;
use crate::frames::PaneFrame;
use crate::geometry;
use crate::geometry::Height;
use crate::geometry::Rect;
use crate::state::AgentOpsTab;
use crate::state::AppState;
use crate::state::SwarmRuntime;
use crate::style;
use crate::style::Color;
use crate::style::Line;
use crate::style::Piece;
use crate::style::Style;
use crate::style::Theme;
use crate::text;

verus! {

/// The lines of the tab that is open.
pub open spec fn lines(st: AppState, swarm: Option<&SwarmRuntime>, width: int) -> Seq<Seq<char>> {
    let usable: int = text::max_int(width, 32);
    match st.agents.dock_tab {
        AgentOpsTab::Roster => roster_lines::all_lines(st, swarm, usable),
        AgentOpsTab::Missions => missions::all_lines(st, usable),
        AgentOpsTab::Dag => dag::all_lines(st, swarm, usable),
        AgentOpsTab::Evidence => artifacts::all_lines(st, swarm, usable),
        AgentOpsTab::Mcp => mcp::all_lines(st, usable),
        AgentOpsTab::Alerts => alerts::all_lines(st, usable),
        AgentOpsTab::Patch | AgentOpsTab::Diagnostics => diagnostics::all_lines(st, usable),
        AgentOpsTab::Scratchpad => diagnostics::scratchpad(st, usable),
    }
}

pub fn current_lines_for_width_with_swarm(
    st: &AppState,
    swarm: Option<&SwarmRuntime>,
    width: usize,
) -> (r: Vec<String>)
    ensures
        text::texts(r@) == lines(*st, swarm, width as int),
{
    let usable: usize = text::max_of(width, 32);
    match st.agents.dock_tab {
        AgentOpsTab::Roster => roster_lines::roster_lines(st, swarm, usable),
        AgentOpsTab::Missions => missions::mission_lines(st, usable),
        AgentOpsTab::Dag => dag::dag_lines(st, swarm, usable),
        AgentOpsTab::Evidence => artifacts::artifacts_lines(st, swarm, usable),
        AgentOpsTab::Mcp => mcp::mcp_lines(st, usable),
        AgentOpsTab::Alerts => alerts::alert_lines(st, usable),
        AgentOpsTab::Patch => diagnostics::diagnostics_lines(st, usable),
        AgentOpsTab::Diagnostics => diagnostics::diagnostics_lines(st, usable),
        AgentOpsTab::Scratchpad => diagnostics::scratchpad_lines(st, usable),
    }
}

pub fn current_lines_for_width(st: &AppState, width: usize) -> (r: Vec<String>)
    ensures
        text::texts(r@) == lines(*st, None, width as int),
{
    current_lines_for_width_with_swarm(st, None, width)
}

/// Whether no line of the open tab is padded to the width of the pane.
pub open spec fn unpadded(st: AppState) -> bool {
    match st.agents.dock_tab {
        AgentOpsTab::Roster => false,
        AgentOpsTab::Missions => false,
        AgentOpsTab::Mcp => false,
        AgentOpsTab::Alerts => false,
        AgentOpsTab::Evidence => popup::listed_cards(st, None, usize::MAX as int).len() == 0,
        _ => true,
    }
}

/// The lines at no particular width. Tables have no such lines: they fill the width.
pub fn current_lines(st: &AppState) -> (r: Vec<String>)
    requires
        unpadded(*st),
    ensures
        text::texts(r@) == lines(*st, None, usize::MAX as int),
{
    current_lines_for_width_with_swarm(st, None, usize::MAX)
}

/// A line of the tab that is open, in colour.
pub open spec fn styled_line(
    st: AppState,
    line_idx: int,
    line: Seq<char>,
    width: int,
    theme: Theme,
) -> Seq<Piece> {
    let usable: int = text::max_int(width, 32);
    if line_idx == 0 {
        seq![style::piece(line, Style::plain().fg(theme.title))]
    } else if line_idx == 1 && line.len() > 0 && text::only(line, '─') {
        seq![style::piece(line, Style::plain().fg(theme.border).dim())]
    } else {
        match st.agents.dock_tab {
            AgentOpsTab::Roster => roster_styled::styled_line(st, line_idx, line, usable, theme),
            AgentOpsTab::Missions => missions::styled_line(st, line_idx, line, usable, theme),
            AgentOpsTab::Mcp => mcp::styled_line(st, line, usable, theme),
            AgentOpsTab::Alerts => alerts::styled_line(st, line_idx, line, usable, theme),
            AgentOpsTab::Dag => dag_styled::styled_line(line, usable, st.ascii_fallback, theme),
            AgentOpsTab::Diagnostics | AgentOpsTab::Patch => diagnostics::styled_line(line, theme),
            AgentOpsTab::Evidence => artifacts_styled::styled_line(line_idx, line, theme),
            AgentOpsTab::Scratchpad => seq![
                style::piece(line, Style::plain().fg(theme.foreground)),
            ],
        }
    }
}

pub fn ops_styled_line(st: &AppState, line_idx: usize, line: &str, width: usize, theme: &Theme) -> (r:
    Line)
    ensures
        r@ == styled_line(*st, line_idx as int, line@, width as int, *theme),
{
    if line_idx == 0 {
        return style::single(text::copy(line), Style::plain().fg(theme.title));
    }
    if line_idx == 1 && text::length(line) > 0 && text::is_only(line, '─') {
        return style::single(text::copy(line), Style::plain().fg(theme.border).dim());
    }
    let usable: usize = text::max_of(width, 32);
    match st.agents.dock_tab {
        AgentOpsTab::Roster => roster_styled::roster_styled_line(st, line_idx, line, usable, theme),
        AgentOpsTab::Missions => missions::mission_styled_line(st, line_idx, line, usable, theme),
        AgentOpsTab::Mcp => mcp::mcp_styled_line(st, line, usable, theme),
        AgentOpsTab::Alerts => alerts::alert_styled_line(st, line_idx, line, usable, theme),
        AgentOpsTab::Dag => dag_styled::dag_styled_line(line, usable, st.ascii_fallback, theme),
        AgentOpsTab::Diagnostics => diagnostics::diagnostics_styled_line(line, theme),
        AgentOpsTab::Patch => diagnostics::diagnostics_styled_line(line, theme),
        AgentOpsTab::Evidence => artifacts_styled::artifacts_styled_line(line_idx, line, theme),
        AgentOpsTab::Scratchpad => style::single(
            text::copy(line),
            Style::plain().fg(theme.foreground),
        ),
    }
}

/// The body of the pane as it is drawn.
pub struct OpsBody {
    pub tab_bar: Line,
    /// The lines that fit.
    pub rows: Vec<Line>,
    /// How many lines stand above them.
    pub scroll: usize,
    pub background: Color,
    pub footer: Line,
}

/// How far the lines are scrolled in a body of this size.
pub open spec fn scroll(st: AppState, swarm: Option<&SwarmRuntime>, body: Rect) -> int {
    frames::scrolled(
        st.agents.ops_scroll as int,
        lines(st, swarm, body.width as int).len() as int,
        body.height as int,
    )
}

/// The lines that fit into a body of this size, in colour.
pub open spec fn visible(
    st: AppState,
    swarm: Option<&SwarmRuntime>,
    body: Rect,
    theme: Theme,
) -> Seq<Seq<Piece>> {
    let all: Seq<Seq<char>> = lines(st, swarm, body.width as int);
    let from: int = scroll(st, swarm, body);
    Seq::new(
        frames::shown(all.len() as int, body.height as int) as nat,
        |i: int| styled_line(st, from + i, all[from + i], body.width as int, theme),
    )
}

/// Whether a body is drawn as the state asks.
pub open spec fn draws(
    r: OpsBody,
    st: AppState,
    swarm: Option<&SwarmRuntime>,
    labels: Seq<Seq<char>>,
    body: Rect,
    theme: Theme,
) -> bool {
    &&& r.tab_bar@ == tabs::tab_pieces(labels, st.agents.dock_tab, theme, tabs::tabs().len() as int)
    &&& style::rows(r.rows@) == visible(st, swarm, body, theme)
    &&& r.scroll == scroll(st, swarm, body)
    &&& r.background == (if st.agents.dock_tab is Roster {
        styles::ops_table_bg(theme)
    } else {
        theme.background
    })
    &&& r.footer@ == tabs::footer_pieces(st.agents.dock_tab, theme)
}

/// The bar of tabs, the open one marked.
pub fn render_tab_bar(st: &AppState, labels: &Vec<String>, theme: &Theme) -> (r: Line)
    requires
        labels@.len() == tabs::tabs().len(),
    ensures
        r@ == tabs::tab_pieces(text::texts(labels@), st.agents.dock_tab, *theme, 8),
{
    tabs::tab_line(labels, st.agents.dock_tab, theme)
}

/// What is drawn in the body of the pane.
pub fn ops_body(
    st: &AppState,
    swarm: Option<&SwarmRuntime>,
    labels: &Vec<String>,
    body: Rect,
    theme: &Theme,
) -> (r: OpsBody)
    requires
        labels@.len() == tabs::tabs().len(),
    ensures
        draws(r, *st, swarm, text::texts(labels@), body, *theme),
{
    broadcast use style::group_lines;

    let width: usize = body.width as usize;
    let height: usize = body.height as usize;
    let all: Vec<String> = current_lines_for_width_with_swarm(st, swarm, width);
    let ghost want: Seq<Seq<Piece>> = visible(*st, swarm, body, *theme);
    let ghost texts: Seq<Seq<char>> = text::texts(all@);
    let total: usize = all.len();
    assert(texts.len() == total);
    let from: usize = frames::clamp_scroll(st.agents.ops_scroll, total, height);
    let count: usize = text::min_of(total, height);
    let mut rows: Vec<Line> = Vec::new();
    let mut i: usize = 0;
    assert(style::rows(rows@) =~= want.take(0));
    while i < count
        invariant
            i <= count,
            from + count <= total,
            total == all@.len(),
            texts == text::texts(all@),
            texts == lines(*st, swarm, body.width as int),
            width == body.width,
            from == scroll(*st, swarm, body),
            want == visible(*st, swarm, body, *theme),
            want.len() == count,
            style::rows(rows@) == want.take(i as int),
        decreases count - i,
    {
        let at: usize = from + i;
        assert(texts[at as int] == all@[at as int]@);
        let line: Line = ops_styled_line(st, at, all[at].as_str(), width, theme);
        let ghost shown: Seq<Piece> = line@;
        rows.push(line);
        assert(want[i as int] == shown);
        i += 1;
        assert(want.take(i as int) =~= want.take(i - 1).push(shown));
    }
    assert(want.take(count as int) =~= want);
    let roster: bool = match st.agents.dock_tab {
        AgentOpsTab::Roster => true,
        _ => false,
    };
    OpsBody {
        tab_bar: render_tab_bar(st, labels, theme),
        rows,
        scroll: from,
        background: if roster {
            styles::ops_table_bg(*theme)
        } else {
            theme.background
        },
        footer: tabs::footer_line(st.agents.dock_tab, theme),
    }
}

/// The pane as it is drawn: its frame and, where there is room, the four areas inside it (the tabs,
/// an empty row, the body and the hints) with what they show.
pub struct OpsPaint {
    pub frame: PaneFrame,
    pub areas: Vec<Rect>,
    pub body: Option<OpsBody>,
}

/// The heights of the rows of the pane.
pub open spec fn ops_heights() -> Seq<Height> {
    seq![Height::Exactly(1), Height::Exactly(1), Height::AtLeast(1), Height::Exactly(1)]
}

pub fn render(
    st: &AppState,
    swarm: &SwarmRuntime,
    labels: &Vec<String>,
    area: Rect,
    focused: bool,
    theme: &Theme,
) -> (r: OpsPaint)
    requires
        labels@.len() == tabs::tabs().len(),
    ensures
        r.frame == frames::pane_frame(focused, *theme),
        ({
            let inner: Rect = geometry::inside(area);
            match r.body {
                Some(body) => inner.width >= 4 && inner.height >= 3 && geometry::divides(
                    inner,
                    ops_heights(),
                    r.areas@,
                ) && draws(
                    body,
                    *st,
                    Some(swarm),
                    text::texts(labels@),
                    r.areas@[2],
                    *theme,
                ),
                None => (inner.width < 4 || inner.height < 3) && r.areas@.len() == 0,
            }
        }),
{
    let frame: PaneFrame = frames::pane_frame(focused, *theme);
    let inner: Rect = geometry::inner(area);
    if inner.width < 4 || inner.height < 3 {
        return OpsPaint { frame, areas: Vec::new(), body: None };
    }
    let heights: Vec<Height> = vec![
        Height::Exactly(1),
        Height::Exactly(1),
        Height::AtLeast(1),
        Height::Exactly(1),
    ];
    assert(heights@ =~= ops_heights());
    let areas: Vec<Rect> = geometry::split_rows(inner, &heights);
    let body: OpsBody = ops_body(st, Some(swarm), labels, areas[2], theme);
    OpsPaint { frame, areas, body: Some(body) }
}

/// Every line of the tab that is open is drawn with its own text, so that what is selected and
/// copied on the screen is what the lines say.
pub proof fn drawn_lines_keep_text(
    st: AppState,
    swarm: Option<&SwarmRuntime>,
    line_idx: int,
    width: int,
    theme: Theme,
)
    requires
        0 <= line_idx < lines(st, swarm, width).len(),
    ensures
        ({
            let line: Seq<char> = lines(st, swarm, width)[line_idx];
            style::plain_text(styled_line(st, line_idx, line, width, theme)) == line
        }),
{
    let usable: int = text::max_int(width, 32);
    let line: Seq<char> = lines(st, swarm, width)[line_idx];
    let all: Seq<Piece> = styled_line(st, line_idx, line, width, theme);
    if line_idx == 0 || (line_idx == 1 && line.len() > 0 && text::only(line, '─')) {
        style::one_piece_text(all[0]);
        assert(all =~= seq![all[0]]);
    } else {
        match st.agents.dock_tab {
            AgentOpsTab::Roster => {
                roster_styled::drawn_lines_keep_text(st, swarm, line_idx, usable, theme);
            },
            AgentOpsTab::Missions => {
                missions::drawn_lines_keep_text(st, line_idx, line, usable, theme);
            },
            AgentOpsTab::Mcp => {
                mcp::drawn_lines_keep_text(st, line, usable, theme);
            },
            AgentOpsTab::Alerts => {
                alerts::drawn_lines_keep_text(st, line_idx, line, usable, theme);
            },
            AgentOpsTab::Dag => {
                dag_styled::drawn_lines_keep_text(line, usable, st.ascii_fallback, theme);
            },
            AgentOpsTab::Diagnostics | AgentOpsTab::Patch => {
                diagnostics::drawn_lines_keep_text(line, theme);
            },
            AgentOpsTab::Evidence => {
                artifacts_styled::drawn_lines_keep_text(line_idx, line, theme);
            },
            AgentOpsTab::Scratchpad => {
                style::one_piece_text(all[0]);
                assert(all =~= seq![all[0]]);
            },
        }
    }
}

} // verus!
