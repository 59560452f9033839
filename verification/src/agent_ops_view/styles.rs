//! Styles that the tables of the operations pane share.

use vstd::prelude::*;

use crate::fit;
use crate::state::AgentAlertSeverity;
use crate::state::AgentLaneKind;
use crate::state::AgentStatus;
use crate::state::McpConnectionState;
use crate::state::MissionPhase;
use crate::style;
use crate::style::Color;
use crate::style::Line;
use crate::style::Piece;
use crate::style::Span;
use crate::style::Style;
use crate::style::Theme;
use crate::text;

verus! {

#[verifier::allow_in_spec]
pub fn ops_table_bg(theme: Theme) -> Color
    returns
        style::dimmed(theme.border, theme.background, 85),
{
    style::dim_bg_towards(theme.border, theme.background, 85)
}

/// Text in the background.
#[verifier::allow_in_spec]
pub fn muted(theme: Theme) -> Style
    returns
        (Style::plain().fg(theme.border).dim()),
{
    Style::plain().fg(theme.border).dim()
}

#[verifier::allow_in_spec]
pub fn plain_text(theme: Theme) -> Style
    returns
        (Style::plain().fg(theme.foreground)),
{
    Style::plain().fg(theme.foreground)
}

#[verifier::allow_in_spec]
pub fn selected_row_style(style: Style, selected: bool, theme: Theme) -> Style
    returns
        (if selected {
            style.bg(theme.selection_bg)
        } else {
            style
        }),
{
    if selected {
        style.bg(theme.selection_bg)
    } else {
        style
    }
}

#[verifier::allow_in_spec]
pub fn striped_row_style(style: Style, selected: bool, striped: bool, theme: Theme) -> Style
    returns
        (if selected {
            style.bg(theme.selection_bg)
        } else if striped {
            style.bg(style::dimmed(theme.cursor_line_bg, theme.background, 60))
        } else {
            style
        }),
{
    if selected {
        style.bg(theme.selection_bg)
    } else if striped {
        style.bg(style::dim_bg_towards(theme.cursor_line_bg, theme.background, 60))
    } else {
        style
    }
}

#[verifier::allow_in_spec]
pub fn agent_status_style(status: AgentStatus, theme: Theme) -> Style
    returns
        (match status {
            AgentStatus::Running => Style::plain().fg(theme.title_focused),
            AgentStatus::Waiting => muted(theme),
            AgentStatus::Idle => muted(theme),
            AgentStatus::Error => Style::plain().fg(theme.error),
        }),
{
    match status {
        AgentStatus::Running => Style::plain().fg(theme.title_focused),
        AgentStatus::Waiting => muted(theme),
        AgentStatus::Idle => muted(theme),
        AgentStatus::Error => Style::plain().fg(theme.error),
    }
}

#[verifier::allow_in_spec]
pub fn heartbeat_age_style(age_secs: u64, theme: Theme) -> Style
    returns
        (if age_secs <= 2 {
            Style::plain().fg(theme.title_focused)
        } else if age_secs <= 5 {
            Style::plain().fg(theme.warning)
        } else {
            Style::plain().fg(theme.error)
        }),
{
    if age_secs <= 2 {
        Style::plain().fg(theme.title_focused)
    } else if age_secs <= 5 {
        Style::plain().fg(theme.warning)
    } else {
        Style::plain().fg(theme.error)
    }
}

#[verifier::allow_in_spec]
pub fn queue_len_style(queue_len: usize, theme: Theme) -> Style
    returns
        (if queue_len > 0 {
            Style::plain().fg(theme.accent)
        } else {
            muted(theme)
        }),
{
    if queue_len > 0 {
        Style::plain().fg(theme.accent)
    } else {
        muted(theme)
    }
}

#[verifier::allow_in_spec]
pub fn alert_severity_style(severity: AgentAlertSeverity, theme: Theme) -> Style
    returns
        (match severity {
            AgentAlertSeverity::Info => Style::plain().fg(theme.title_focused),
            AgentAlertSeverity::Warn => Style::plain().fg(theme.warning),
            AgentAlertSeverity::Error => Style::plain().fg(theme.error),
        }),
{
    match severity {
        AgentAlertSeverity::Info => Style::plain().fg(theme.title_focused),
        AgentAlertSeverity::Warn => Style::plain().fg(theme.warning),
        AgentAlertSeverity::Error => Style::plain().fg(theme.error),
    }
}

#[verifier::allow_in_spec]
pub fn mcp_state_style(state: McpConnectionState, theme: Theme) -> Style
    returns
        (match state {
            McpConnectionState::Connected => Style::plain().fg(theme.title_focused),
            McpConnectionState::Connecting => Style::plain().fg(theme.hl.operator),
            McpConnectionState::Disconnected => muted(theme),
            McpConnectionState::Error => Style::plain().fg(theme.error),
        }),
{
    match state {
        McpConnectionState::Connected => Style::plain().fg(theme.title_focused),
        McpConnectionState::Connecting => Style::plain().fg(theme.hl.operator),
        McpConnectionState::Disconnected => muted(theme),
        McpConnectionState::Error => Style::plain().fg(theme.error),
    }
}

#[verifier::allow_in_spec]
pub fn mission_phase_style(phase: MissionPhase, theme: Theme) -> Style
    returns
        (match phase {
            MissionPhase::Plan => Style::plain().fg(theme.accent).bold(),
            MissionPhase::Execute => Style::plain().fg(theme.title_focused).bold(),
            MissionPhase::Verify => Style::plain().fg(theme.title),
            MissionPhase::Report => muted(theme),
        }),
{
    match phase {
        MissionPhase::Plan => Style::plain().fg(theme.accent).bold(),
        MissionPhase::Execute => Style::plain().fg(theme.title_focused).bold(),
        MissionPhase::Verify => Style::plain().fg(theme.title),
        MissionPhase::Report => muted(theme),
    }
}

#[verifier::allow_in_spec]
pub fn roster_lane_backend_accent(backend: AgentLaneKind, theme: Theme) -> Color
    returns
        (match backend {
            AgentLaneKind::Codex => theme.title,
            AgentLaneKind::Claude => theme.border_focused,
            AgentLaneKind::Gemini => theme.accent,
            AgentLaneKind::Mock => theme.border,
            AgentLaneKind::Unknown => theme.title,
        }),
{
    match backend {
        AgentLaneKind::Codex => theme.title,
        AgentLaneKind::Claude => theme.border_focused,
        AgentLaneKind::Gemini => theme.accent,
        AgentLaneKind::Mock => theme.border,
        AgentLaneKind::Unknown => theme.title,
    }
}

pub open spec fn status_style(status: Seq<char>, theme: Theme) -> Style {
    let upper: Seq<char> = text::raised_text(status);
    if text::includes(upper, "ERROR"@) || text::includes(upper, "FAILED"@) {
        Style::plain().fg(theme.error)
    } else if text::includes(upper, "WARN"@) {
        Style::plain().fg(theme.warning)
    } else if text::includes(upper, "RUNNING"@) || text::includes(upper, "ACTIVE"@)
        || text::includes(upper, "APPLIED"@) || text::includes(upper, "DONE"@) || text::includes(
        upper,
        "COMPLETE"@,
    ) {
        Style::plain().fg(theme.title_focused)
    } else {
        plain_text(theme)
    }
}

pub fn mission_status_style(status: &str, theme: Theme) -> (r: Style)
    ensures
        r == status_style(status@, theme),
{
    let upper: String = text::upper_of(status);
    let u: &str = upper.as_str();
    if text::contains(u, "ERROR") || text::contains(u, "FAILED") {
        Style::plain().fg(theme.error)
    } else if text::contains(u, "WARN") {
        Style::plain().fg(theme.warning)
    } else if text::contains(u, "RUNNING") || text::contains(u, "ACTIVE") || text::contains(
        u,
        "APPLIED",
    ) || text::contains(u, "DONE") || text::contains(u, "COMPLETE") {
        Style::plain().fg(theme.title_focused)
    } else {
        plain_text(theme)
    }
}

/// Where column `i` starts, but for its first `skip` characters if it is the first one.
pub open spec fn cut_start(w: Seq<usize>, skip: int, i: int) -> int {
    if i <= 0 {
        1 + skip
    } else {
        fit::column_start(w, i)
    }
}

/// Column `i` of a line, but for its first `skip` characters if it is the first one.
pub open spec fn cut_column(line: Seq<char>, w: Seq<usize>, skip: int, i: int) -> Seq<char> {
    fit::slice(
        line,
        cut_start(w, skip, i),
        if i <= 0 {
            text::monus(w[0] as int, skip)
        } else {
            w[i] as int
        },
    )
}

/// `before` with the first `n` columns of a line behind it, each in its own style, and between
/// two of them the character that stands there.
pub open spec fn with_columns(
    before: Seq<Piece>,
    line: Seq<char>,
    w: Seq<usize>,
    looks: Seq<Style>,
    space: Style,
    skip: int,
    n: int,
) -> Seq<Piece>
    decreases n,
{
    if n <= 0 {
        before
    } else {
        let prev: Seq<Piece> = with_columns(before, line, w, looks, space, skip, n - 1);
        let gap: Seq<Piece> = if n > 1 {
            prev.push(style::piece(fit::slice(line, fit::column_start(w, n - 1) - 1, 1), space))
        } else {
            prev
        };
        gap.push(style::piece(cut_column(line, w, skip, n - 1), looks[n - 1]))
    }
}

/// What stands behind the first `n` columns of a line.
pub open spec fn behind_columns(line: Seq<char>, w: Seq<usize>, n: int) -> Seq<char> {
    text::tail(line, fit::column_start(w, n) - 1)
}

/// `before`, and behind it what is left of a line.
pub open spec fn with_rest(before: Seq<Piece>, rest: Seq<char>, look: Style) -> Seq<Piece> {
    if rest.len() == 0 {
        before
    } else {
        before.push(style::piece(rest, look))
    }
}

fn place_behind(w: &Vec<usize>, n: usize) -> (r: usize)
    requires
        n <= w@.len(),
    ensures
        r == text::min_int(fit::column_start(w@, n as int) - 1, usize::MAX as int),
{
    let mut at: usize = 0;
    let mut i: usize = 0;
    while i < n
        invariant
            i <= n <= w@.len(),
            at == text::min_int(fit::column_start(w@, i as int) - 1, usize::MAX as int),
        decreases n - i,
    {
        at = at.saturating_add(w[i]).saturating_add(1);
        i += 1;
    }
    at
}

pub fn push_columns(
    spans: Vec<Span>,
    line: &str,
    w: &Vec<usize>,
    looks: &Vec<Style>,
    space: Style,
    skip: usize,
    n: usize,
) -> (r: Vec<Span>)
    requires
        n <= w@.len(),
        n <= looks@.len(),
        skip < 0x100,
    ensures
        style::pieces(r@) == with_columns(
            style::pieces(spans@),
            line@,
            w@,
            looks@,
            space,
            skip as int,
            n as int,
        ),
{
    broadcast use style::group_lines;

    let total: usize = text::length(line);
    let mut out: Vec<Span> = spans;
    let ghost before: Seq<Piece> = style::pieces(spans@);
    let mut i: usize = 0;
    while i < n
        invariant
            i <= n <= w@.len(),
            n <= looks@.len(),
            skip < 0x100,
            total == line@.len(),
            style::pieces(out@) == with_columns(
                before,
                line@,
                w@,
                looks@,
                space,
                skip as int,
                i as int,
            ),
        decreases n - i,
    {
        broadcast use style::group_lines;

        let at: usize = place_behind(w, i);
        if i > 0 {
            proof {
                starts_are_positive(w@, i as int);
            }
            let gap: String = fit::take_chars(line, at, 1);
            assert(gap@ =~= fit::slice(line@, fit::column_start(w@, i as int) - 1, 1));
            out.push(style::styled(gap, space));
            let cell: String = fit::take_chars(line, at.saturating_add(1), w[i]);
            assert(cell@ =~= cut_column(line@, w@, skip as int, i as int));
            out.push(style::styled(cell, looks[i]));
        } else {
            let cell: String = fit::take_chars(line, 1 + skip, text::minus(w[0], skip));
            assert(cell@ =~= cut_column(line@, w@, skip as int, 0));
            out.push(style::styled(cell, looks[0]));
        }
        i += 1;
    }
    out
}

pub proof fn starts_are_positive(w: Seq<usize>, i: int)
    requires
        0 <= i <= w.len(),
    ensures
        fit::column_start(w, i) >= 1 + i,
    decreases i,
{
    if i > 0 {
        starts_are_positive(w, i - 1);
    }
}

pub fn text_behind(line: &str, w: &Vec<usize>, n: usize) -> (r: String)
    requires
        n <= w@.len(),
    ensures
        r@ == behind_columns(line@, w@, n as int),
{
    let at: usize = place_behind(w, n);
    let total: usize = text::length(line);
    let r: String = text::tail_of(line, at);
    assert(r@ =~= behind_columns(line@, w@, n as int));
    r
}

pub fn push_rest(spans: Vec<Span>, rest: String, look: Style) -> (r: Vec<Span>)
    ensures
        style::pieces(r@) == with_rest(style::pieces(spans@), rest@, look),
{
    broadcast use style::group_lines;

    let mut out: Vec<Span> = spans;
    if text::length(rest.as_str()) > 0 {
        out.push(style::styled(rest, look));
    }
    out
}

/// A row of a table: the marker and the columns, each in its own style, and what is left.
pub open spec fn table_row(
    line: Seq<char>,
    w: Seq<usize>,
    marker_style: Style,
    looks: Seq<Style>,
    space: Style,
) -> Seq<Piece> {
    with_rest(
        with_columns(
            seq![style::piece(text::head(line, 1), marker_style)],
            line,
            w,
            looks,
            space,
            0,
            w.len() as int,
        ),
        behind_columns(line, w, w.len() as int),
        space,
    )
}

pub fn styled_row(
    line: &str,
    w: &Vec<usize>,
    marker_style: Style,
    looks: &Vec<Style>,
    space: Style,
) -> (r: Line)
    requires
        w@.len() == looks@.len(),
    ensures
        r@ == table_row(line@, w@, marker_style, looks@, space),
{
    let n: usize = w.len();
    let first: Span = style::styled(text::head_of(line, 1), marker_style);
    let spans: Vec<Span> = vec![first];
    assert(style::pieces(spans@) =~= seq![style::piece(text::head(line@, 1), marker_style)]);
    let cells: Vec<Span> = push_columns(spans, line, w, looks, space, 0, n);
    Line { spans: push_rest(cells, text_behind(line, w, n), space) }
}

pub proof fn rest_keeps_text(before: Seq<Piece>, rest: Seq<char>, look: Style)
    ensures
        style::plain_text(with_rest(before, rest, look)) == style::plain_text(before) + rest,
{
    style::plain_text_push(before, style::piece(rest, look));
    if rest.len() == 0 {
        assert(style::plain_text(before) + rest =~= style::plain_text(before));
    }
}

/// Drawing columns keeps the text of a line up to the end of the last of them.
pub proof fn columns_keep_text(
    before: Seq<Piece>,
    line: Seq<char>,
    w: Seq<usize>,
    looks: Seq<Style>,
    space: Style,
    skip: int,
    n: int,
)
    requires
        1 <= n <= w.len(),
        0 <= skip <= w[0],
        style::plain_text(before) == text::head(line, 1 + skip),
    ensures
        style::plain_text(with_columns(before, line, w, looks, space, skip, n)) == text::head(
            line,
            fit::column_start(w, n) - 1,
        ),
    decreases n,
{
    let cell: Seq<char> = cut_column(line, w, skip, n - 1);
    let prev: Seq<Piece> = with_columns(before, line, w, looks, space, skip, n - 1);
    let look: Style = looks[n - 1];
    starts_are_positive(w, n - 1);
    if n > 1 {
        columns_keep_text(before, line, w, looks, space, skip, n - 1);
        let at: int = fit::column_start(w, n - 1);
        let gap: Seq<char> = fit::slice(line, at - 1, 1);
        style::plain_text_push(prev, style::piece(gap, space));
        style::plain_text_push(prev.push(style::piece(gap, space)), style::piece(cell, look));
        assert(text::head(line, at - 1) + gap =~= text::head(line, at));
        assert(text::head(line, at) + cell =~= text::head(line, at + w[n - 1]));
    } else {
        reveal_with_fuel(fit::column_start, 2);
        style::plain_text_push(prev, style::piece(cell, look));
        assert(text::head(line, 1 + skip) + cell =~= text::head(line, 1 + w[0]));
    }
}

/// Drawing a row in columns keeps its text.
pub proof fn rows_keep_text(
    line: Seq<char>,
    w: Seq<usize>,
    marker_style: Style,
    looks: Seq<Style>,
    space: Style,
)
    requires
        w.len() > 0,
    ensures
        style::plain_text(table_row(line, w, marker_style, looks, space)) == line,
{
    let n: int = w.len() as int;
    let first: Piece = style::piece(text::head(line, 1), marker_style);
    style::one_piece_text(first);
    columns_keep_text(seq![first], line, w, looks, space, 0, n);
    rest_keeps_text(
        with_columns(seq![first], line, w, looks, space, 0, n),
        behind_columns(line, w, n),
        space,
    );
    text::head_tail(line, fit::column_start(w, n) - 1);
}

} // verus!
