//! What stands in the lists of missions, alerts, tasks and agents.

use vstd::prelude::*;

use crate::agent_ops_view::alerts;
use crate::agent_ops_view::dag;
use crate::agent_ops_view::missions;
use crate::agent_ops_view::roster;
use crate::blocks;
use crate::fit;
use crate::state::AgentLane;
use crate::state::AgentLaneKind;
use crate::state::Alert;
use crate::state::AppState;
use crate::state::Entry;
use crate::state::Mission;
use crate::state::SwarmDashboardTask;
use crate::state::SwarmDashboardView;
use crate::table_cells;
use crate::text;
use crate::wrap;

verus! {

proof fn front_is_read(a: Seq<char>, b: Seq<char>, start: int, len: int)
    requires
        0 <= start,
        0 <= len,
        start + len <= a.len(),
    ensures
        fit::slice(a + b, start, len) == fit::slice(a, start, len),
{
    assert(fit::slice(a + b, start, len) =~= fit::slice(a, start, len));
}

proof fn columns_end(w: Seq<usize>, i: int, n: int)
    requires
        0 <= i < n <= w.len(),
    ensures
        1 <= fit::column_start(w, i),
        fit::column_start(w, i) + w[i] + 1 <= fit::column_start(w, n),
    decreases n,
{
    if i < n - 1 {
        columns_end(w, i, n - 1);
    } else if i > 0 {
        columns_end(w, i - 1, i);
    }
}

/// Every mission has a line that starts with its identity, its phase, whether it is a swarm, and its
/// status, each in its column. The line of the selected mission has the cursor before it.
pub proof fn every_mission_has_its_line(st: AppState, width: int, m: int) -> (at: int)
    requires
        0 <= m < st.agents.missions@.len(),
    ensures
        2 <= at < missions::all_lines(st, width).len(),
        ({
            let line: Seq<char> = missions::all_lines(st, width)[at];
            let w: Seq<usize> = missions::mission_widths(width);
            let mission: Mission = st.agents.missions@[m];
            &&& line.len() > 0
            &&& !st.ascii_fallback ==> (line[0] == '➜' <==> m == st.agents.mission_selected)
            &&& w.len() == 5
            &&& fit::slice(line, fit::column_start(w.take(4), 0), w[0] as int) == fit::left(
                mission.id@,
                w[0] as int,
            )
            &&& fit::slice(line, fit::column_start(w.take(4), 1), w[1] as int) == fit::left(
                mission.phase_label@,
                w[1] as int,
            )
            &&& fit::slice(line, fit::column_start(w.take(4), 2), w[2] as int) == fit::left(
                if mission.swarm {
                    "yes"@
                } else {
                    "no"@
                },
                w[2] as int,
            )
            &&& fit::slice(line, fit::column_start(w.take(4), 3), w[3] as int) == fit::left(
                mission.status@,
                w[3] as int,
            )
        }),
{
    let all: Seq<Mission> = st.agents.missions@;
    let heights: Seq<nat> = missions::heights(all);
    let w: Seq<usize> = missions::mission_widths(width);
    let four: Seq<usize> = w.take(4);
    fit::every_column_has_a_width(
        text::monus(width, 1),
        seq![6, 6, 3, 6, 8],
        seq![12, 8, 5, 12, 18],
        4,
    );
    blocks::row_in_block(heights, m, 1);
    let k: int = blocks::rows_upto(heights, m).len() + 1int;
    missions::missions_match_lines(st, width, k);
    let line: Seq<char> = missions::all_lines(st, width)[2 + k];
    let mission: Mission = all[m];
    let marker: char = if m == st.agents.mission_selected {
        crate::agent_ops_view::glyphs::cursor_glyph(st.ascii_fallback)
    } else {
        crate::agent_ops_view::glyphs::arrow_glyph(st.ascii_fallback)
    };
    let cells: Seq<Seq<char>> = seq![
        mission.id@,
        mission.phase_label@,
        if mission.swarm {
            "yes"@
        } else {
            "no"@
        },
        mission.status@,
    ];
    let front: Seq<char> = table_cells::row(seq![marker], four, cells);
    let agents: Seq<char> = missions::pane_mid(
        missions::agent_label(st, mission, 0),
        w[4] as int,
    );
    assert(line == front + " "@ + agents);
    assert(line =~= front + (" "@ + agents));
    assert(front =~= seq![marker] + table_cells::left_cells(four, cells, 4));
    table_cells::cells_fill_their_columns(four, cells, 4);
    assert forall|i: int| 0 <= i < 4 implies #[trigger] fit::slice(
        line,
        fit::column_start(four, i),
        four[i] as int,
    ) == fit::left(cells[i], four[i] as int) by {
        columns_end(four, i, 4);
        table_cells::columns_read_back(marker, four, cells, 4, i);
        front_is_read(front, " "@ + agents, fit::column_start(four, i), four[i] as int);
    }
    assert(fit::slice(line, fit::column_start(four, 0), four[0] as int) == fit::left(
        cells[0],
        four[0] as int,
    ));
    assert(fit::slice(line, fit::column_start(four, 1), four[1] as int) == fit::left(
        cells[1],
        four[1] as int,
    ));
    assert(fit::slice(line, fit::column_start(four, 2), four[2] as int) == fit::left(
        cells[2],
        four[2] as int,
    ));
    assert(fit::slice(line, fit::column_start(four, 3), four[3] as int) == fit::left(
        cells[3],
        four[3] as int,
    ));
    2 + k
}

/// Every alert has a line with its severity, its time and its source, each in its column, and the
/// start of its message in the last one; the line of the selected alert has the cursor before it.
pub proof fn every_alert_has_its_line(st: AppState, width: int, a: int) -> (at: int)
    requires
        0 <= a < st.agents.alerts@.len(),
    ensures
        2 <= at < alerts::all_lines(st, width).len(),
        ({
            let line: Seq<char> = alerts::all_lines(st, width)[at];
            let w: Seq<usize> = alerts::alert_widths(width);
            let alert: Alert = st.agents.alerts@[a];
            &&& line.len() > 0
            &&& !st.ascii_fallback ==> (line[0] == '➜' <==> a == st.agents.alert_selected)
            &&& w.len() == 4
            &&& fit::slice(line, fit::column_start(w, 0), w[0] as int) == fit::left(
                alert.severity_label@,
                w[0] as int,
            )
            &&& fit::slice(line, fit::column_start(w, 1), w[1] as int) == fit::left(
                alert.at@,
                w[1] as int,
            )
            &&& fit::slice(line, fit::column_start(w, 2), w[2] as int) == fit::left(
                alert.source@,
                w[2] as int,
            )
            &&& fit::slice(line, fit::column_start(w, 3), w[3] as int) == fit::left(
                wrap::cell_lines(alert.message@, w[3] as int)[0],
                w[3] as int,
            )
        }),
{
    let w: Seq<usize> = alerts::alert_widths(width);
    fit::every_column_has_a_width(
        text::monus(width, 1),
        seq![4, 4, 5, 12],
        seq![5, 8, 10, 26],
        3,
    );
    let heights: Seq<nat> = alerts::heights(st.agents.alerts@, w[3] as int);
    let alert: Alert = st.agents.alerts@[a];
    wrap::some_cell_line_is_left(alert.message@, w[3] as int);
    blocks::row_in_block(heights, a, 0);
    let k: int = blocks::rows_upto(heights, a).len() as int;
    let line: Seq<char> = alerts::all_lines(st, width)[2 + k];
    let marker: char = if a == st.agents.alert_selected {
        crate::agent_ops_view::glyphs::cursor_glyph(st.ascii_fallback)
    } else {
        crate::agent_ops_view::glyphs::arrow_glyph(st.ascii_fallback)
    };
    let cells: Seq<Seq<char>> = seq![
        alert.severity_label@,
        alert.at@,
        alert.source@,
        wrap::cell_lines(alert.message@, w[3] as int)[0],
    ];
    assert(line == alerts::block_line(st, w, a, 0));
    assert(line =~= seq![marker] + table_cells::left_cells(w, cells, 4));
    table_cells::columns_read_back(marker, w, cells, 4, 0);
    table_cells::columns_read_back(marker, w, cells, 4, 1);
    table_cells::columns_read_back(marker, w, cells, 4, 2);
    table_cells::columns_read_back(marker, w, cells, 4, 3);
    2 + k
}

/// The rest of an alert's message follows on its own lines, below the first one and in its order.
pub proof fn messages_of_alerts_go_on(st: AppState, width: int, a: int, r: int) -> (at: int)
    requires
        0 <= a < st.agents.alerts@.len(),
        0 <= r < wrap::cell_lines(
            st.agents.alerts@[a].message@,
            alerts::alert_widths(width)[3] as int,
        ).len(),
    ensures
        ({
            let w: Seq<usize> = alerts::alert_widths(width);
            let first: int = 2int + blocks::rows_upto(
                alerts::heights(st.agents.alerts@, w[3] as int),
                a,
            ).len();
            &&& at == first + r
            &&& at < alerts::all_lines(st, width).len()
            &&& fit::slice(
                alerts::all_lines(st, width)[at],
                fit::column_start(w, 3),
                w[3] as int,
            ) == fit::left(
                wrap::cell_lines(st.agents.alerts@[a].message@, w[3] as int)[r],
                w[3] as int,
            )
        }),
{
    let w: Seq<usize> = alerts::alert_widths(width);
    fit::every_column_has_a_width(
        text::monus(width, 1),
        seq![4, 4, 5, 12],
        seq![5, 8, 10, 26],
        3,
    );
    let heights: Seq<nat> = alerts::heights(st.agents.alerts@, w[3] as int);
    blocks::row_in_block(heights, a, r);
    let k: int = blocks::rows_upto(heights, a).len() + r;
    let line: Seq<char> = alerts::all_lines(st, width)[2 + k];
    let chunk: Seq<char> = wrap::cell_lines(st.agents.alerts@[a].message@, w[3] as int)[r];
    assert(line == alerts::block_line(st, w, a, r));
    if r == 0 {
        let alert: Alert = st.agents.alerts@[a];
        let marker: char = if a == st.agents.alert_selected {
            crate::agent_ops_view::glyphs::cursor_glyph(st.ascii_fallback)
        } else {
            crate::agent_ops_view::glyphs::arrow_glyph(st.ascii_fallback)
        };
        let cells: Seq<Seq<char>> = seq![alert.severity_label@, alert.at@, alert.source@, chunk];
        assert(line =~= seq![marker] + table_cells::left_cells(w, cells, 4));
        table_cells::columns_read_back(marker, w, cells, 4, 3);
    } else {
        let cells: Seq<Seq<char>> = seq![""@, ""@, ""@, chunk];
        assert(line =~= seq![' '] + table_cells::left_cells(w, cells, 4));
        table_cells::columns_read_back(' ', w, cells, 4, 3);
    }
    2 + k
}

proof fn members_are_of_their_kind(agents: Seq<AgentLane>, kind: AgentLaneKind, n: int, i: int)
    requires
        0 <= n <= agents.len() <= usize::MAX,
        0 <= i < agents.len(),
    ensures
        roster::members_upto(agents, kind, n).contains(i as usize) <==> i < n && agents[i].kind
            == kind && !agents[i].shadow,
    decreases n,
{
    if n > 0 {
        members_are_of_their_kind(agents, kind, n - 1, i);
        let before: Seq<usize> = roster::members_upto(agents, kind, n - 1);
        let all: Seq<usize> = roster::members_upto(agents, kind, n);
        let last: usize = (n - 1) as usize;
        if !agents[n - 1].shadow && agents[n - 1].kind == kind {
            assert(all == before.push(last));
            if before.contains(i as usize) {
                assert(all[before.index_of(i as usize)] == i);
            }
            if i == n - 1 {
                assert(all[before.len() as int] == i);
            }
            if all.contains(i as usize) {
                let k: int = all.index_of(i as usize);
                if k < before.len() {
                    assert(before[k] == i);
                }
            }
        }
    }
}

/// The group of a backend holds its agents, but for those that are kept out of sight.
pub proof fn groups_hold_their_agents(st: AppState, kind: AgentLaneKind, i: int)
    requires
        0 <= i < st.agents.agents@.len() <= usize::MAX,
    ensures
        roster::members(st, kind).contains(i as usize) <==> st.agents.agents@[i].kind == kind
            && !st.agents.agents@[i].shadow,
{
    members_are_of_their_kind(
        st.agents.agents@,
        kind,
        st.agents.agents@.len() as int,
        i,
    );
}

proof fn ordered_agents_are_in_groups(st: AppState, n: int, x: usize)
    requires
        0 <= n <= roster::groups(st).len(),
    ensures
        roster::order_upto(st, n).contains(x) <==> exists|g: int|
            0 <= g < n && roster::expanded(st, (#[trigger] roster::groups(st)[g]).0)
                && roster::groups(st)[g].1.contains(x),
    decreases n,
{
    if n > 0 {
        ordered_agents_are_in_groups(st, n - 1, x);
        let before: Seq<usize> = roster::order_upto(st, n - 1);
        let group: (AgentLaneKind, Seq<usize>) = roster::groups(st)[n - 1];
        if roster::expanded(st, group.0) {
            let all: Seq<usize> = before + group.1;
            assert(roster::order_upto(st, n) == all);
            if before.contains(x) {
                assert(all[before.index_of(x)] == x);
            }
            if group.1.contains(x) {
                assert(all[before.len() + group.1.index_of(x)] == x);
            }
            if all.contains(x) {
                let k: int = all.index_of(x);
                if k < before.len() {
                    assert(before[k] == x);
                } else {
                    assert(group.1[k - before.len()] == x);
                }
            }
        }
    }
}

proof fn groups_are_of_their_kind(st: AppState, n: int, g: int)
    requires
        0 <= n <= 5,
        0 <= g < roster::groups_upto(st, n).len(),
    ensures
        roster::groups_upto(st, n)[g].1 == roster::members(st, roster::groups_upto(st, n)[g].0),
    decreases n,
{
    if n > 0 {
        if g < roster::groups_upto(st, n - 1).len() {
            groups_are_of_their_kind(st, n - 1, g);
        }
    }
}

proof fn every_kind_is_grouped(st: AppState, n: int, k: int) -> (g: int)
    requires
        0 <= k < n <= 5,
        roster::members(st, roster::kinds()[k]).len() > 0,
    ensures
        0 <= g < roster::groups_upto(st, n).len(),
        roster::groups_upto(st, n)[g].0 == roster::kinds()[k],
    decreases n,
{
    if k == n - 1 {
        roster::groups_upto(st, n - 1).len() as int
    } else {
        every_kind_is_grouped(st, n - 1, k)
    }
}

/// An agent is listed exactly where the group of its backend is unfolded and it is not kept out of
/// sight.
pub proof fn agents_are_listed_in_unfolded_groups(st: AppState, i: int)
    requires
        0 <= i < st.agents.agents@.len() <= usize::MAX,
    ensures
        roster::display_order(st).contains(i as usize) <==> !st.agents.agents@[i].shadow
            && st.agents.roster_expanded_backend_kinds@.contains(st.agents.agents@[i].kind),
{
    let kind: AgentLaneKind = st.agents.agents@[i].kind;
    let groups: Seq<(AgentLaneKind, Seq<usize>)> = roster::groups(st);
    ordered_agents_are_in_groups(st, groups.len() as int, i as usize);
    if roster::display_order(st).contains(i as usize) {
        let g: int = choose|g: int|
            0 <= g < groups.len() && roster::expanded(st, (#[trigger] groups[g]).0)
                && groups[g].1.contains(i as usize);
        groups_are_of_their_kind(st, 5, g);
        groups_hold_their_agents(st, groups[g].0, i);
    }
    if !st.agents.agents@[i].shadow && roster::expanded(st, kind) {
        groups_hold_their_agents(st, kind, i);
        let k: int = match kind {
            AgentLaneKind::Codex => 0,
            AgentLaneKind::Claude => 1,
            AgentLaneKind::Gemini => 2,
            AgentLaneKind::Mock => 3,
            AgentLaneKind::Unknown => 4,
        };
        assert(roster::kinds()[k] == kind);
        let g: int = every_kind_is_grouped(st, 5, k);
        groups_are_of_their_kind(st, 5, g);
        assert(roster::expanded(st, groups[g].0) && groups[g].1.contains(i as usize));
    }
}

proof fn task_lines_are_kept(
    names: Seq<Entry<String>>,
    tasks: Seq<SwarmDashboardTask>,
    w: Seq<usize>,
    arrow: char,
    n: int,
    k: int,
) -> (at: int)
    requires
        0 <= k < n <= tasks.len(),
    ensures
        0 <= at,
        at + dag::task_lines(names, tasks[k], w, arrow).len() <= dag::tasks_lines(
            names,
            tasks,
            w,
            arrow,
            n,
        ).len(),
        forall|i: int|
            0 <= i < dag::task_lines(names, tasks[k], w, arrow).len() ==> #[trigger] dag::tasks_lines(
                names,
                tasks,
                w,
                arrow,
                n,
            )[at + i] == dag::task_lines(names, tasks[k], w, arrow)[i],
    decreases n,
{
    let before: Seq<Seq<char>> = dag::tasks_lines(names, tasks, w, arrow, n - 1);
    if k == n - 1 {
        before.len() as int
    } else {
        let at: int = task_lines_are_kept(names, tasks, w, arrow, n - 1, k);
        assert forall|i: int|
            0 <= i < dag::task_lines(names, tasks[k], w, arrow).len() implies #[trigger] dag::tasks_lines(
            names,
            tasks,
            w,
            arrow,
            n,
        )[at + i] == before[at + i] by {}
        at
    }
}

/// Every task has a line with its identity, its state and the start of its title, each in its
/// column.
pub proof fn every_task_has_its_line(
    names: Seq<Entry<String>>,
    d: SwarmDashboardView,
    given: int,
    arrow: char,
    k: int,
) -> (at: int)
    requires
        0 <= k < d.tasks@.len(),
    ensures
        0 <= at < dag::dashboard_lines(names, d, given, arrow).len(),
        ({
            let line: Seq<char> = dag::dashboard_lines(names, d, given, arrow)[at];
            let w: Seq<usize> = dag::task_widths(text::max_int(given, 32) - 1);
            let task: SwarmDashboardTask = d.tasks@[k];
            let cells: Seq<Seq<char>> = seq![
                task.id@,
                task.state@,
                wrap::cell_lines(task.title@, w[2] as int)[0],
            ];
            line == seq![arrow, ' '] + fit::left(task.id@, w[0] as int) + " "@ + fit::left(
                task.state@,
                w[1] as int,
            ) + " "@ + fit::left(wrap::cell_lines(task.title@, w[2] as int)[0], w[2] as int)
        }),
{
    reveal_strlit(" ");
    reveal_strlit("");
    let width: int = text::max_int(given, 32);
    let w: Seq<usize> = dag::task_widths(width - 1);
    let task: SwarmDashboardTask = d.tasks@[k];
    let at: int = task_lines_are_kept(names, d.tasks@, w, arrow, d.tasks@.len() as int, k);
    let chunks: Seq<Seq<char>> = wrap::cell_lines(task.title@, w[2] as int);
    wrap::some_cell_line_is_left(task.title@, w[2] as int);
    let own: Seq<Seq<char>> = dag::task_lines(names, task, w, arrow);
    let cells: Seq<Seq<char>> = seq![task.id@, task.state@, ""@ + chunks[0]];
    assert(own[0] == table_cells::row(seq![arrow] + " "@, w, cells));
    assert(""@ + chunks[0] =~= chunks[0]);
    reveal_with_fuel(table_cells::left_cells, 4);
    let all: Seq<Seq<char>> = dag::dashboard_lines(names, d, given, arrow);
    let head: Seq<Seq<char>> = dag::head_lines(d, width);
    let rows: Seq<Seq<char>> = dag::tasks_lines(names, d.tasks@, w, arrow, d.tasks@.len() as int);
    assert(rows[at + 0] == own[0]);
    assert(all[head.len() + at] == rows[at]);
    assert(own[0] =~= seq![arrow, ' '] + fit::left(task.id@, w[0] as int) + " "@ + fit::left(
        task.state@,
        w[1] as int,
    ) + " "@ + fit::left(chunks[0], w[2] as int));
    head.len() + at
}

} // verus!
