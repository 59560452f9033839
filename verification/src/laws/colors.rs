//! What colors and marks stand for.

use vstd::prelude::*;

use crate::agent_console_view::stages;
use crate::agent_ops_view::artifacts_styled;
use crate::agent_ops_view::dag_styled;
use crate::agent_ops_view::glyphs;
use crate::agent_ops_view::roster_styled;
use crate::agent_ops_view::segments;
use crate::agent_ops_view::styles;
use crate::frames;
use crate::games_analysis_popup;
use crate::games_analysis_popup::HistoryAnalysisSummary;
use crate::games_analysis_popup::Trajectory;
use crate::laws::labels;
use crate::laws::status;
use crate::laws::texts;
use crate::state::AgentAlertSeverity;
use crate::state::AgentStatus;
use crate::state::McpConnectionState;
use crate::state::MissionPhase;
use crate::style::Color;
use crate::style::Piece;
use crate::style::Style;
use crate::style::Theme;
use crate::text;

verus! {

/// Overlaying a style keeps what the overlay does not set, and what both set comes from the overlay.
pub proof fn overlays_win(a: Style, b: Style, color: Color)
    ensures
        a.patch(b.fg(color)).fg == Some(color),
        a.patch(b.bg(color)).bg == Some(color),
        b.fg is None ==> a.patch(b).fg == a.fg,
        b.bg is None ==> a.patch(b).bg == a.bg,
        a.patch(b).bold <==> a.bold || b.bold,
        a.patch(b).underlined <==> a.underlined || b.underlined,
        a.patch(b).reversed <==> a.reversed || b.reversed,
        a.patch(b).dim <==> a.dim || b.dim,
        a.patch(b).italic <==> a.italic || b.italic,
        a.patch(Style::plain()) == a,
        Style::plain().patch(a) == a,
{
}

/// Setting one part of a style leaves the others as they are.
pub proof fn parts_of_a_style_are_set_one_by_one(a: Style, color: Color)
    ensures
        a.fg(color).fg == Some(color) && a.fg(color).bg == a.bg && a.fg(color).bold == a.bold,
        a.bg(color).bg == Some(color) && a.bg(color).fg == a.fg && a.bg(color).bold == a.bold,
        a.bold().bold && a.bold().fg == a.fg && a.bold().dim == a.dim,
        a.dim().dim && a.dim().fg == a.fg && a.dim().bold == a.bold,
        a.italic().italic && a.italic().underlined == a.underlined,
        a.underlined().underlined && a.underlined().italic == a.italic,
        a.reversed().reversed && a.reversed().bg == a.bg,
        Style::plain().fg is None && Style::plain().bg is None && !Style::plain().bold
            && !Style::plain().dim && !Style::plain().italic && !Style::plain().underlined
            && !Style::plain().reversed,
{
}

/// A pane with the keyboard has a thick frame in the colors for that, any other a thin one.
pub proof fn the_pane_with_the_keyboard_stands_out(theme: Theme)
    ensures
        frames::pane_frame(true, theme).thick && !frames::pane_frame(false, theme).thick,
        frames::pane_frame(true, theme).border.fg == Some(theme.border_focused),
        frames::pane_frame(false, theme).border.fg == Some(theme.border),
        frames::pane_frame(true, theme).title.fg == Some(theme.title_focused),
        frames::pane_frame(false, theme).title.fg == Some(theme.title),
{
}

/// What pulses is lit for six frames, then dark for six, and so on.
pub proof fn what_pulses_changes_every_six_frames(n: u64)
    requires
        n < u64::MAX - 12,
    ensures
        stages::pulse_on((n + 6) as u64) != stages::pulse_on(n),
        stages::pulse_on((n + 12) as u64) == stages::pulse_on(n),
        n < 6 ==> stages::pulse_on(n),
{
    assert((n + 6) / 6 == n / 6 + 1);
    assert((n + 12) / 6 == n / 6 + 2);
}

/// Where the font has only ASCII, all marks are ASCII; open and closed branches look different.
pub proof fn marks_fit_the_font(ascii: bool)
    ensures
        ascii ==> (glyphs::arrow_glyph(ascii) as int) < 128 && (glyphs::cursor_glyph(ascii) as int)
            < 128 && (glyphs::tree_closed_glyph(ascii) as int) < 128 && (glyphs::tree_open_glyph(
            ascii,
        ) as int) < 128,
        glyphs::tree_closed_glyph(ascii) != glyphs::tree_open_glyph(ascii),
        !ascii ==> glyphs::arrow_glyph(ascii) == '↳' && glyphs::cursor_glyph(ascii) == '➜'
            && glyphs::tree_closed_glyph(ascii) == '▸' && glyphs::tree_open_glyph(ascii) == '▾',
{
}

/// An agent that failed is red, one that runs stands out, and the others are muted.
pub proof fn agents_have_the_color_of_their_status(status: AgentStatus, theme: Theme)
    ensures
        status is Error ==> styles::agent_status_style(status, theme).fg == Some(theme.error),
        status is Running ==> styles::agent_status_style(status, theme).fg == Some(
            theme.title_focused,
        ),
        status is Waiting || status is Idle ==> styles::agent_status_style(status, theme)
            == styles::muted(theme),
{
}

/// A sign of life fades in two steps: it is fresh for two seconds, then it warns, and after five
/// seconds it is red.
pub proof fn signs_of_life_fade(age: u64, theme: Theme)
    ensures
        age <= 2 ==> styles::heartbeat_age_style(age, theme).fg == Some(theme.title_focused),
        2 < age <= 5 ==> styles::heartbeat_age_style(age, theme).fg == Some(theme.warning),
        age > 5 ==> styles::heartbeat_age_style(age, theme).fg == Some(theme.error),
{
}

/// A queue stands out exactly where something waits in it.
pub proof fn queues_stand_out_where_something_waits(n: usize, theme: Theme)
    ensures
        n > 0 ==> styles::queue_len_style(n, theme).fg == Some(theme.accent),
        n == 0 ==> styles::queue_len_style(n, theme) == styles::muted(theme),
{
}

/// Alerts have the color of how bad they are, and a server the color of how it is connected.
pub proof fn alerts_and_servers_have_their_color(
    severity: AgentAlertSeverity,
    connection: McpConnectionState,
    theme: Theme,
)
    ensures
        severity is Error ==> styles::alert_severity_style(severity, theme).fg == Some(theme.error),
        severity is Warn ==> styles::alert_severity_style(severity, theme).fg == Some(
            theme.warning,
        ),
        severity is Info ==> styles::alert_severity_style(severity, theme).fg == Some(
            theme.title_focused,
        ),
        connection is Error ==> styles::mcp_state_style(connection, theme).fg == Some(theme.error),
        connection is Connected ==> styles::mcp_state_style(connection, theme).fg == Some(
            theme.title_focused,
        ),
        connection is Disconnected ==> styles::mcp_state_style(connection, theme) == styles::muted(
            theme,
        ),
{
}

/// Of a mission, the phases in which something is planned or done stand out most.
pub proof fn missions_have_the_color_of_their_phase(phase: MissionPhase, theme: Theme)
    ensures
        phase is Plan ==> styles::mission_phase_style(phase, theme).fg == Some(theme.accent),
        phase is Execute ==> styles::mission_phase_style(phase, theme).fg == Some(
            theme.title_focused,
        ),
        phase is Verify ==> styles::mission_phase_style(phase, theme).fg == Some(theme.title),
        phase is Report ==> styles::mission_phase_style(phase, theme) == styles::muted(theme),
        styles::mission_phase_style(phase, theme).bold <==> phase is Plan || phase is Execute,
{
}

/// The row that is selected has the background of the selection, and no other row is changed by it.
pub proof fn selected_rows_have_the_background_of_the_selection(s: Style, theme: Theme)
    ensures
        styles::selected_row_style(s, true, theme).bg == Some(theme.selection_bg),
        styles::selected_row_style(s, true, theme).fg == s.fg,
        styles::selected_row_style(s, false, theme) == s,
        styles::striped_row_style(s, true, true, theme).bg == Some(theme.selection_bg),
        styles::striped_row_style(s, false, false, theme) == s,
{
}

/// A choice is lit exactly where it is the current one, in capitals or not.
pub proof fn the_current_choice_is_lit(
    label: Seq<char>,
    value: Seq<char>,
    current: Seq<char>,
    theme: Theme,
)
    ensures
        roster_styled::choice_piece(label, value, current, theme).text == label,
        text::lowered_text(value) == text::lowered_text(current) ==> roster_styled::choice_piece(
            label,
            value,
            current,
            theme,
        ).style.bg == Some(theme.border_focused),
        text::lowered_text(value) != text::lowered_text(current) ==> !roster_styled::choice_piece(
            label,
            value,
            current,
            theme,
        ).style.bold,
{
}

/// The states of tasks have their colors, in capitals or not.
pub proof fn states_of_tasks_have_their_color(s: Seq<char>, base: Style, theme: Theme)
    requires
        labels::bare(s),
    ensures
        text::same_letters(s, "failed"@) ==> dag_styled::state_style(s, base, theme).fg == Some(
            theme.error,
        ),
        text::same_letters(s, "running"@) ==> dag_styled::state_style(s, base, theme).fg == Some(
            theme.title_focused,
        ),
        text::same_letters(s, "queued"@) ==> dag_styled::state_style(s, base, theme).fg == Some(
            theme.accent,
        ),
        text::same_letters(s, "done"@) ==> dag_styled::state_style(s, base, theme).fg == Some(
            theme.border,
        ) && dag_styled::state_style(s, base, theme).dim,
{
    texts::nothing_else_is_trimmed(s);
    reveal_strlit("failed");
    reveal_strlit("fail");
    reveal_strlit("running");
    reveal_strlit("queued");
    reveal_strlit("pending");
    reveal_strlit("done");
    assert(text::lowered_text("failed"@)[0] == 'f' && text::lowered_text("failed"@).len() == 6);
    assert(text::lowered_text("fail"@)[0] == 'f');
    assert(text::lowered_text("running"@)[0] == 'r');
    assert(text::lowered_text("queued"@)[0] == 'q');
    assert(text::lowered_text("pending"@)[0] == 'p');
    assert(text::lowered_text("done"@)[0] == 'd');
}

/// Gates that pass stand out, and gates that fail are red.
pub proof fn gates_have_the_color_of_their_status(base: Style, theme: Theme, s: Seq<char>)
    ensures
        s == "PASS"@ ==> dag_styled::gate_style(s, base, theme).fg == Some(theme.title_focused),
        s == "FAIL"@ ==> dag_styled::gate_style(s, base, theme).fg == Some(theme.error),
        s == "PENDING"@ ==> dag_styled::gate_style(s, base, theme).dim,
{
    reveal_strlit("PASS");
    reveal_strlit("FAIL");
    reveal_strlit("PENDING");
    assert("PASS"@[0] == 'P' && "FAIL"@[0] == 'F' && "PENDING"@.len() == 7 && "PASS"@.len() == 4);
}

/// A segment of a line is its label before the colon and its value behind it.
pub proof fn segments_part_at_their_colon(label: Seq<char>, value: Seq<char>)
    requires
        labels::bare(label),
        labels::lacks(label, ':'),
        labels::bare(value),
    ensures
        segments::label_value(label + seq![':'] + (seq![' '] + value)) == (label, value),
{
    reveal_strlit(":");
    let s: Seq<char> = label + seq![':'] + (seq![' '] + value);
    texts::texts_part_at_their_mark(label, ":"@, seq![' '] + value);
    assert(label + ":"@ + (seq![' '] + value) =~= s);
    texts::nothing_else_is_trimmed(label);
    status::the_space_before_is_trimmed(value);
}

/// The summary of an analysis tells its matches, its rounds and where its files are.
pub proof fn an_analysis_tells_its_totals(
    m: HistoryAnalysisSummary,
    s: games_analysis_popup::Styles,
    width: int,
)
    ensures
        ({
            let rows: Seq<Seq<Piece>> = games_analysis_popup::summary_rows(m, s, width);
            &&& rows.len() == 11 + m.strategies@.len()
            &&& rows[1][1].text == text::decimal(m.total_matches as nat)
            &&& rows[1][3].text == text::decimal(m.total_rounds as nat)
            &&& rows[1][5].text == text::decimal(m.tail_rounds as nat)
            &&& rows[2][1].text == text::decimal(m.min_rounds as nat)
            &&& rows[2][3].text == text::decimal(m.max_rounds as nat)
            &&& rows[2][5].text == text::decimal(m.trajectory_samples as nat)
        }),
{
    reveal(games_analysis_popup::summary_rows);
}

proof fn trajectory_has_its_rows(
    all: Seq<Trajectory>,
    s: games_analysis_popup::Styles,
    width: int,
    n: int,
    k: int,
)
    requires
        0 <= k < n <= all.len(),
    ensures
        games_analysis_popup::trajectories(all, s, width, n).len() == 3 * n,
        games_analysis_popup::trajectories(all, s, width, n)[row_of_trajectory(k) + 1][1].text
            == all[k].a_plot@,
        games_analysis_popup::trajectories(all, s, width, n)[row_of_trajectory(k) + 2][1].text
            == all[k].b_plot@,
    decreases n,
{
    if n > 1 {
        trajectory_has_its_rows(
            all,
            s,
            width,
            n - 1,
            if k < n - 1 {
                k
            } else {
                0
            },
        );
    } else {
        assert(games_analysis_popup::trajectories(all, s, width, 0).len() == 0);
    }
}

/// The place of the first row of a trajectory.
pub open spec fn row_of_trajectory(k: int) -> int {
    3 * k
}

/// Every trajectory has its rows, with the plots of both sides in their order.
pub proof fn every_trajectory_has_its_rows(
    all: Seq<Trajectory>,
    s: games_analysis_popup::Styles,
    width: int,
    k: int,
)
    requires
        0 <= k < all.len(),
    ensures
        ({
            let rows: Seq<Seq<Piece>> = games_analysis_popup::trajectories(
                all,
                s,
                width,
                all.len() as int,
            );
            &&& rows.len() == 3 * all.len()
            &&& rows[row_of_trajectory(k) + 1][1].text == all[k].a_plot@
            &&& rows[row_of_trajectory(k) + 2][1].text == all[k].b_plot@
        }),
{
    trajectory_has_its_rows(all, s, width, all.len() as int, k);
}

/// A count among the artifacts stands out where it is more than none.
pub proof fn counts_stand_out_where_there_are_any(n: nat, base: Style, theme: Theme)
    requires
        n <= u64::MAX,
    ensures
        n > 0 ==> artifacts_styled::value_style("msgs"@, text::decimal(n), base, theme).fg == Some(
            theme.accent,
        ),
        n == 0 ==> artifacts_styled::value_style("msgs"@, text::decimal(n), base, theme).fg == Some(
            theme.border,
        ),
{
    reveal_strlit("msgs");
    reveal_strlit("agent");
    reveal_strlit("context");
    reveal_strlit("thread");
    texts::nothing_else_is_trimmed("msgs"@);
    assert(text::lowered_text("msgs"@) =~= "msgs"@);
    assert("msgs"@.len() == 4 && "agent"@.len() == 5 && "context"@.len() == 7 && "thread"@.len()
        == 6);
    let d: Seq<char> = text::decimal(n);
    texts::numbers_are_spelled_out(n);
    assert(!text::white(d[0]) && !text::white(d[d.len() - 1]));
    texts::nothing_else_is_trimmed(d);
    texts::numbers_are_read_back(n, u64::MAX as nat);
}

} // verus!
