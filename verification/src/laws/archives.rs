//! By which words archived artifacts are found, where they come from, and what a swarm's gates and
//! tasks tell of themselves.

use vstd::prelude::*;

use crate::agent_ops_view::archive;
use crate::agent_ops_view::archive::ArchiveItem;
use crate::agent_ops_view::archive::Origin;
use crate::agent_ops_view::archive::RunFile;
use crate::agent_ops_view::dag;
use crate::columns;
use crate::counting;
use crate::fit;
use crate::laws::counts;
use crate::laws::details;
use crate::laws::labels;
use crate::laws::lookups;
use crate::laws::texts;
use crate::previews;
use crate::state;
use crate::state::AgentMessage;
use crate::state::AgentsState;
use crate::state::AppState;
use crate::state::PersistedArtifactsRun;
use crate::state::SwarmDashboardGate;
use crate::state::SwarmDashboardTask;
use crate::state::SwarmDashboardView;
use crate::state::SwarmRuntime;
use crate::table_cells;
use crate::text;
use crate::wrap;

verus! {

/// An artifact is found by the words of its kind, of its owner, of its source and of its text, in
/// small letters.
pub proof fn artifacts_are_found_by_all_of_their_words(
    kind: Seq<char>,
    owner: Seq<char>,
    source: Seq<char>,
    full: Seq<char>,
)
    ensures
        archive::tokens(archive::search_text(kind, owner, source, full)) == archive::tokens(
            text::lowered_text(kind),
        ) + archive::tokens(text::lowered_text(owner)) + archive::tokens(
            text::lowered_text(source),
        ) + archive::tokens(text::lowered_text(previews::preview(full, 2000))),
{
    reveal_strlit(" ");
    let k: Seq<char> = text::lowered_text(kind);
    let o: Seq<char> = text::lowered_text(owner);
    let s: Seq<char> = text::lowered_text(source);
    let f: Seq<char> = text::lowered_text(previews::preview(full, 2000));
    let all: Seq<char> = archive::search_text(kind, owner, source, full);
    assert(!archive::word_char(' '));
    assert(all =~= k + seq![' '] + o + seq![' '] + s + seq![' '] + f);
    details::words_end_between_texts(k + seq![' '] + o + seq![' '] + s, ' ', f);
    details::words_end_between_texts(k + seq![' '] + o, ' ', s);
    details::words_end_between_texts(k, ' ', o);
}

/// Words mention a term exactly where it is one of them.
pub proof fn terms_are_mentioned_where_they_are_words(words: Seq<Seq<char>>, term: Seq<char>)
    ensures
        archive::mentions(words, term) <==> words.contains(term),
{
    let n: int = words.len() as int;
    let meets = archive::is_term(words, term);
    counts::a_count_tells_whether_there_is_any(n, meets);
    if words.contains(term) {
        assert(meets(words.index_of(term)));
    }
    if archive::mentions(words, term) {
        let k: int = choose|k: int| 0 <= k < n && #[trigger] meets(k);
        assert(words[k] == term);
    }
}

/// The items of a run tell who said what: the user as such, agents by the name that they are shown
/// under, with the start of the text and its place in the run.
pub proof fn archived_messages_tell_who_said_what(
    agents: AgentsState,
    run: PersistedArtifactsRun,
    from: Origin,
    k: int,
)
    requires
        0 <= k < run.messages@.len(),
        run.messages@[k].agent_id is None || run.messages@[k].agent_id->0@ != "swarm"@,
    ensures
        ({
            let all: Seq<ArchiveItem> = archive::message_items(agents, run, from, k + 1);
            let m: AgentMessage = run.messages@[k];
            &&& all.len() > 0
            &&& all.last().artifact_index == k
            &&& m.agent_id is None ==> all.last().owner == "You"@
            &&& m.agent_id is Some && state::value_of(agents.display_ids@, m.agent_id->0@) is None
                ==> all.last().owner == m.agent_id->0@
            &&& m.agent_id is Some && state::value_of(agents.display_ids@, m.agent_id->0@) is Some
                ==> all.last().owner == state::value_of(agents.display_ids@, m.agent_id->0@)->0@
            &&& all.last().preview == previews::preview(m.text@, 120)
            &&& all.last().run_path == from.run_path
            &&& all.last().archive_micros == from.archive_micros
        }),
{
}

/// A run is of the time that the name of its directory tells, and of the time of its file where the
/// name tells none.
pub proof fn runs_are_dated_by_their_directory(file: RunFile, t: nat, rest: Seq<char>)
    requires
        t <= u128::MAX,
    ensures
        file.dir_name is Some && file.dir_name->0@ == text::decimal(t) + seq!['-'] + rest
            ==> archive::file_time(file) == Some(t as u128),
        file.dir_name is None ==> archive::file_time(file) == file.mtime,
        file.dir_name is Some && file.dir_name->0@.len() > 0 && !('0' <= file.dir_name->0@[0]
            <= '9') ==> archive::file_time(file) == file.mtime,
{
    if file.dir_name is Some && file.dir_name->0@ == text::decimal(t) + seq!['-'] + rest {
        details::archives_are_dated_by_their_name(t, rest);
    }
    if file.dir_name is Some && file.dir_name->0@.len() > 0 && !('0' <= file.dir_name->0@[0]
        <= '9') {
        details::other_archives_have_no_date(file.dir_name->0@);
    }
}

/// A file that is not known yet, or that was changed since, is read anew.
pub proof fn changed_files_are_read_anew(
    agents: AgentsState,
    prev: Seq<ArchiveItem>,
    file: RunFile,
    now: u128,
)
    requires
        forall|k: int|
            0 <= k < prev.len() ==> (#[trigger] prev[k]).run_path != file.run_path@ || prev[k].mtime
                != file.mtime,
    ensures
        file.run is Some ==> archive::file_items(agents, prev, file, now) == archive::run_items(
            agents,
            file.run->0,
            archive::origin(agents, file, now),
        ),
        file.run is None ==> archive::file_items(agents, prev, file, now).len() == 0,
{
    let meets = archive::is_cached(prev, file.run_path@, file.mtime);
    let n: int = prev.len() as int;
    counting::picked_are_in_order(n, meets);
    let kept: Seq<int> = counting::picked(n, meets);
    if kept.len() > 0 {
        assert(meets(kept[0]));
        assert(prev[kept[0]].run_path == file.run_path@);
    }
}

/// The graph says what is missing: a mission, a swarm, or its data.
pub proof fn the_graph_says_what_is_missing(st: AppState, swarm: Option<&SwarmRuntime>, k: int)
    ensures
        st.agents.context_mission is None ==> dag::notice(st, swarm) == Some(
            " No mission selected."@,
        ),
        st.agents.context_mission is Some && 0 <= k < st.agents.missions@.len()
            && st.agents.missions@[k].id@ == st.agents.context_mission->0@
            && !st.agents.missions@[k].swarm && (forall|j: int|
            0 <= j < k ==> (#[trigger] st.agents.missions@[j]).id@
                != st.agents.context_mission->0@) ==> dag::notice(st, swarm) == Some(
            " Mission "@ + st.agents.context_mission->0@ + " is not a swarm."@,
        ),
        st.agents.context_mission is Some && 0 <= k < st.agents.missions@.len()
            && st.agents.missions@[k].id@ == st.agents.context_mission->0@
            && st.agents.missions@[k].swarm && (forall|j: int|
            0 <= j < k ==> (#[trigger] st.agents.missions@[j]).id@
                != st.agents.context_mission->0@) && swarm is Some && state::value_of(
            swarm->0.dashboards@,
            st.agents.context_mission->0@,
        ) is Some ==> dag::notice(st, swarm) is None,
{
    if st.agents.context_mission is Some {
        let id: Seq<char> = st.agents.context_mission->0@;
        lookups::missions_are_found_by_identity(st.agents.missions@, id);
        if 0 <= k < st.agents.missions@.len() && st.agents.missions@[k].id@ == id && (forall|j: int|
            0 <= j < k ==> (#[trigger] st.agents.missions@[j]).id@ != id) {
            let found: int = state::mission_named(st.agents.missions@, id)->0;
            assert(found == k) by {
                assert(st.agents.missions@[found].id@ == id);
            }
        }
    }
}

/// A task tells what it needs, what it waits for, whether it writes and has an output, and when it
/// is done.
pub proof fn tasks_tell_what_they_need(task: SwarmDashboardTask)
    requires
        task.deps@.len() == 1,
        task.blocked_on@.len() == 0,
        task.done_when is Some,
        labels::bare(task.done_when->0@),
    ensures
        dag::task_details(task) == "deps: "@ + task.deps@[0]@ + "  block: "@ + "-"@ + "  writes: "@
            + (if task.writes {
            "yes"@
        } else {
            "no"@
        }) + "  out: "@ + (if task.output_present {
            "yes"@
        } else {
            "no"@
        }) + "  done_when: "@ + task.done_when->0@,
{
    texts::nothing_else_is_trimmed(task.done_when->0@);
    reveal_with_fuel(text::joined, 2);
    assert(text::texts(task.deps@) =~= seq![task.deps@[0]@]);
    assert(text::joined(text::texts(task.deps@), ","@) =~= task.deps@[0]@);
}

proof fn gate_lines_are_kept(
    gates: Seq<SwarmDashboardGate>,
    w: Seq<usize>,
    arrow: char,
    n: int,
    k: int,
) -> (at: int)
    requires
        0 <= k < n <= gates.len(),
    ensures
        0 <= at,
        at + dag::gate_lines(gates[k], w, arrow).len() <= dag::gates_lines(
            gates,
            w,
            arrow,
            n,
        ).len(),
        forall|i: int|
            0 <= i < dag::gate_lines(gates[k], w, arrow).len() ==> dag::gates_lines(
                gates,
                w,
                arrow,
                n,
            )[at + i] == #[trigger] dag::gate_lines(gates[k], w, arrow)[i],
    decreases n,
{
    if k == n - 1 {
        dag::gates_lines(gates, w, arrow, n - 1).len() as int
    } else {
        gate_lines_are_kept(gates, w, arrow, n - 1, k)
    }
}

/// Every gate has its line in the graph, with its name and its status.
pub proof fn every_gate_has_its_line(
    names: Seq<state::Entry<String>>,
    d: SwarmDashboardView,
    given: int,
    arrow: char,
    k: int,
) -> (at: int)
    requires
        0 <= k < d.gates@.len(),
    ensures
        0 <= at < dag::dashboard_lines(names, d, given, arrow).len(),
        ({
            let line: Seq<char> = dag::dashboard_lines(names, d, given, arrow)[at];
            let g: Seq<usize> = dag::gate_widths(text::max_int(given, 32) - 1);
            let gate: SwarmDashboardGate = d.gates@[k];
            text::starts(
                line,
                " "@ + fit::left(gate.name@, g[0] as int) + " "@ + fit::left(
                    gate.status@,
                    g[1] as int,
                ),
            )
        }),
{
    let width: int = text::max_int(given, 32);
    let g: Seq<usize> = dag::gate_widths(width - 1);
    let gate: SwarmDashboardGate = d.gates@[k];
    gate_lines_start_with_their_name(gate, g, arrow);
    let at: int = gate_lines_are_kept(d.gates@, g, arrow, d.gates@.len() as int, k);
    let own: Seq<Seq<char>> = dag::gate_lines(gate, g, arrow);
    let rows: Seq<Seq<char>> = dag::gates_lines(d.gates@, g, arrow, d.gates@.len() as int);
    assert(rows[at + 0] == own[0]);
    gates_stand_last(names, d, given, arrow, at)
}

proof fn gates_stand_last(
    names: Seq<state::Entry<String>>,
    d: SwarmDashboardView,
    given: int,
    arrow: char,
    i: int,
) -> (at: int)
    requires
        ({
            let g: Seq<usize> = dag::gate_widths(text::max_int(given, 32) - 1);
            &&& d.gates@.len() > 0
            &&& 0 <= i < dag::gates_lines(d.gates@, g, arrow, d.gates@.len() as int).len()
        }),
    ensures
        0 <= at < dag::dashboard_lines(names, d, given, arrow).len(),
        dag::dashboard_lines(names, d, given, arrow)[at] == dag::gates_lines(
            d.gates@,
            dag::gate_widths(text::max_int(given, 32) - 1),
            arrow,
            d.gates@.len() as int,
        )[i],
{
    let all: Seq<Seq<char>> = dag::dashboard_lines(names, d, given, arrow);
    let rows: Seq<Seq<char>> = dag::gates_lines(
        d.gates@,
        dag::gate_widths(text::max_int(given, 32) - 1),
        arrow,
        d.gates@.len() as int,
    );
    all.len() - rows.len() + i
}

proof fn gate_lines_start_with_their_name(gate: SwarmDashboardGate, g: Seq<usize>, arrow: char)
    ensures
        dag::gate_lines(gate, g, arrow).len() > 0,
        text::starts(
            dag::gate_lines(gate, g, arrow)[0],
            " "@ + fit::left(gate.name@, g[0] as int) + " "@ + fit::left(gate.status@, g[1] as int),
        ),
{
    let chunks: Seq<Seq<char>> = dag::command_chunks(gate.command@, g[2] as int);
    wrap::some_cell_line_is_left(
        gate.command@,
        if g[2] > 2 {
            g[2] - 2
        } else {
            g[2] as int
        },
    );
    let cells: Seq<Seq<char>> = seq![gate.name@, gate.status@, ""@ + chunks[0]];
    let line: Seq<char> = table_cells::row(" "@, g, cells);
    assert(dag::gate_lines(gate, g, arrow)[0] == line);
    let a: Seq<char> = fit::left(gate.name@, g[0] as int);
    let b: Seq<char> = fit::left(gate.status@, g[1] as int);
    let c: Seq<char> = fit::left(""@ + chunks[0], g[2] as int);
    three_cells(" "@, g, cells);
    assert(line =~= " "@ + a + " "@ + b + (" "@ + c));
    let front: Seq<char> = " "@ + a + " "@ + b;
    assert(line.subrange(0, front.len() as int) =~= front);
}

proof fn three_cells(marker: Seq<char>, w: Seq<usize>, cells: Seq<Seq<char>>)
    requires
        cells.len() == 3,
    ensures
        table_cells::row(marker, w, cells) == marker + (fit::left(cells[0], w[0] as int) + " "@
            + fit::left(cells[1], w[1] as int) + " "@ + fit::left(cells[2], w[2] as int)),
{
    reveal_with_fuel(table_cells::left_cells, 4);
    assert(table_cells::left_cells(w, cells, 3) =~= fit::left(cells[0], w[0] as int) + " "@
        + fit::left(cells[1], w[1] as int) + " "@ + fit::left(cells[2], w[2] as int));
}

/// A tab in the input leads to the next column that four divides, where the line is wide enough.
pub proof fn tabs_lead_to_every_fourth_column(col: int, width: int)
    requires
        0 <= col,
        width >= 4,
    ensures
        1 <= columns::tab_cells(col, width) <= 4,
        (col + columns::tab_cells(col, width)) % 4 == 0,
{
}

} // verus!
