//! What is told of a swarm, of its tasks and of where the artifacts come from.

use vstd::prelude::*;

use crate::agent_ops_view::dag;
use crate::agent_ops_view::provenance;
use crate::agent_ops_view::swarm_details;
use crate::counting;
use crate::laws::graph;
use crate::laws::labels;
use crate::laws::lookups;
use crate::laws::texts;
use crate::state;
use crate::state::AppState;
use crate::state::ArtifactRisk;
use crate::state::Entry;
use crate::state::GateReportGate;
use crate::state::SwarmPersistenceView;
use crate::state::SwarmTaskArtifacts;
use crate::state::SwarmTaskPersistenceView;
use crate::text;

verus! {

/// A line ends at its line feed; a carriage return before that belongs to the ending.
pub proof fn lines_end_at_line_feeds(line: Seq<char>, rest: Seq<char>)
    requires
        labels::lacks(line, '\n'),
    ensures
        text::lines_of(line + seq!['\n'] + rest).len() == text::lines_of(rest).len() + 1,
        text::lines_of(line + seq!['\n'] + rest).skip(1) == text::lines_of(rest),
        line.len() > 0 && line.last() == '\r' ==> text::lines_of(line + seq!['\n'] + rest)[0]
            == line.drop_last(),
        line.len() == 0 || line.last() != '\r' ==> text::lines_of(line + seq!['\n'] + rest)[0]
            == line,
{
    let s: Seq<char> = line + seq!['\n'] + rest;
    texts::characters_are_found_first(line, '\n', rest);
    assert(text::head(s, line.len() as int) =~= line);
    assert(text::tail(s, line.len() + 1int) =~= rest);
    assert(text::lines_of(s).skip(1) =~= text::lines_of(rest));
    if line.len() > 0 && line.last() == '\r' {
        assert(text::without_cr(line) =~= line.drop_last());
    }
}

/// A text without a line feed is a single line, and an empty text has none.
pub proof fn a_text_without_line_feeds_is_one_line(s: Seq<char>)
    requires
        labels::lacks(s, '\n'),
    ensures
        s.len() == 0 ==> text::lines_of(s).len() == 0,
        s.len() > 0 ==> text::lines_of(s) == seq![s],
{
    texts::texts_without_the_character_are_one_part(s, '\n');
    text::char_at_or_after_is_first(s, '\n', 0);
}

/// The artifacts of a task are there as soon as there is a summary with something in it, or an item
/// of any kind.
pub proof fn artifacts_are_there_where_something_is(a: SwarmTaskArtifacts)
    ensures
        a.files@.len() + a.diffs@.len() + a.commands@.len() + a.risks@.len() + a.notes@.len() > 0
            ==> swarm_details::artifacts_present(a),
        a.summary is Some && labels::bare(a.summary->0@) ==> swarm_details::artifacts_present(a),
        a.files@.len() + a.diffs@.len() + a.commands@.len() + a.risks@.len() + a.notes@.len() == 0
            && (a.summary is None || a.summary->0@.len() == 0)
            ==> !swarm_details::artifacts_present(a),
{
    if a.summary is Some {
        let s: Seq<char> = a.summary->0@;
        if labels::bare(s) {
            texts::nothing_else_is_trimmed(s);
        }
        if s.len() == 0 {
            let ends: (int, int) = texts::trimming_takes_the_white_ends(s);
        }
    }
}

/// One task more is counted once: among those that are missing something, among those with an
/// output, and with its files and its commands.
pub proof fn a_task_counts_once(view: SwarmPersistenceView, n: int)
    requires
        0 <= n < view.tasks@.len(),
    ensures
        counting::counted(n + 1, swarm_details::missing(view)) == counting::counted(
            n,
            swarm_details::missing(view),
        ) + (if view.tasks@[n].expected_artifacts_missing {
            1nat
        } else {
            0nat
        }),
        counting::counted(n + 1, swarm_details::with_output(view)) == counting::counted(
            n,
            swarm_details::with_output(view),
        ) + (if view.tasks@[n].output_present {
            1nat
        } else {
            0nat
        }),
        view.tasks@[n].artifacts is None ==> counting::counted(n + 1, swarm_details::parsed(view))
            == counting::counted(n, swarm_details::parsed(view)),
        view.tasks@[n].artifacts is Some && view.tasks@[n].artifacts->0.files@.len() > 0
            ==> counting::counted(n + 1, swarm_details::parsed(view)) == counting::counted(
            n,
            swarm_details::parsed(view),
        ) + 1,
        swarm_details::files_upto(view.tasks@, n + 1) == swarm_details::files_upto(view.tasks@, n)
            + (if view.tasks@[n].artifacts is Some {
            view.tasks@[n].artifacts->0.files@.len()
        } else {
            0
        }),
        swarm_details::commands_upto(view.tasks@, n + 1) == swarm_details::commands_upto(
            view.tasks@,
            n,
        ) + (if view.tasks@[n].artifacts is Some {
            view.tasks@[n].artifacts->0.commands@.len()
        } else {
            0
        }),
{
}

/// The summary of a swarm says how many tasks there are, how many of them miss something, how many
/// have an output, and how the check went.
pub proof fn the_summary_says_how_far_the_swarm_is(view: SwarmPersistenceView, width: int)
    requires
        view.tasks@.len() <= usize::MAX,
    ensures
        graph::said_in(
            swarm_details::summary(view, width),
            "Tasks"@ + ": "@ + text::decimal(view.tasks@.len()),
        ),
        graph::said_in(
            swarm_details::summary(view, width),
            "Missing"@ + ": "@ + text::decimal(
                counting::counted(view.tasks@.len() as int, swarm_details::missing(view)),
            ),
        ),
        graph::said_in(
            swarm_details::summary(view, width),
            "Outputs"@ + ": "@ + text::decimal(
                counting::counted(view.tasks@.len() as int, swarm_details::with_output(view)),
            ),
        ),
        view.gate_report is Some ==> graph::said_in(
            swarm_details::summary(view, width),
            if view.gate_report->0.overall_ok {
                "Verify"@ + ": "@ + "PASS"@
            } else {
                "Verify"@ + ": "@ + "FAIL"@
            },
        ),
{
    reveal_strlit("Tasks");
    reveal_strlit("Missing");
    reveal_strlit("Outputs");
    reveal_strlit("Verify");
    reveal_strlit("PASS");
    reveal_strlit("FAIL");
    reveal_strlit("PENDING");
    reveal_strlit("--");
    let n: int = view.tasks@.len() as int;
    let names: Seq<Seq<char>> = seq![
        "Tasks"@,
        "Parsed"@,
        "Missing"@,
        "Outputs"@,
        "Files"@,
        "Cmds"@,
        "Verify"@,
    ];
    let missing: nat = counting::counted(n, swarm_details::missing(view));
    let outputs: nat = counting::counted(n, swarm_details::with_output(view));
    let values: Seq<Seq<char>> = seq![
        text::decimal(n as nat),
        text::decimal(counting::counted(n, swarm_details::parsed(view))),
        text::decimal(missing),
        text::decimal(outputs),
        text::decimal(swarm_details::files_upto(view.tasks@, n)),
        text::decimal(swarm_details::commands_upto(view.tasks@, n)),
        swarm_details::verify_status(view),
    ];
    counting::counted_at_most(n, swarm_details::missing(view));
    counting::counted_at_most(n, swarm_details::with_output(view));
    graph::number_is_bare(n as nat);
    graph::number_is_bare(missing);
    graph::number_is_bare(outputs);
    let first: Seq<Seq<char>> = dag::block(
        seq!["Mission"@, "Template"@, "Phase"@],
        seq![view.mission_id@, view.template@, view.phase@],
        width,
    );
    let second: Seq<Seq<char>> = dag::block(names, values, width);
    let third: Seq<Seq<char>> = dag::block(
        seq!["Root"@],
        seq![".nit/swarm/"@ + view.mission_id@ + "/"@],
        width,
    );
    graph::blocks_say_every_value(names, values, width, 0);
    graph::blocks_say_every_value(names, values, width, 2);
    graph::blocks_say_every_value(names, values, width, 3);
    graph::blocks_say_every_value(names, values, width, 6);
    graph::said_behind(first, second, third, "Tasks"@ + ": "@ + values[0]);
    graph::said_behind(first, second, third, "Missing"@ + ": "@ + values[2]);
    graph::said_behind(first, second, third, "Outputs"@ + ": "@ + values[3]);
    graph::said_behind(first, second, third, "Verify"@ + ": "@ + values[6]);
}

/// A note stands in brackets behind what it is on; an empty one is left out.
pub proof fn notes_stand_in_brackets(s: Seq<char>, note: Option<String>)
    ensures
        note is None ==> swarm_details::noted(s, note) == s,
        note is Some && labels::bare(note->0@) ==> swarm_details::noted(s, note) == s + " ("@
            + note->0@ + ")"@,
{
    if note is Some && labels::bare(note->0@) {
        texts::nothing_else_is_trimmed(note->0@);
    }
}

/// A risk is told with its level before it and with what is done against it behind it.
pub proof fn risks_are_told_with_their_level(risk: ArtifactRisk)
    requires
        risk.level is None || labels::bare(risk.level->0@),
        risk.mitigation is None || labels::bare(risk.mitigation->0@),
    ensures
        swarm_details::risk_text(risk) == (if risk.level is Some {
            "["@ + risk.level->0@ + "] "@
        } else {
            Seq::empty()
        }) + risk.item@ + (if risk.mitigation is Some {
            " -> "@ + risk.mitigation->0@
        } else {
            Seq::empty()
        }),
{
    let front: Seq<char> = if risk.level is Some {
        "["@ + risk.level->0@ + "] "@
    } else {
        Seq::empty()
    };
    if risk.level is Some {
        texts::nothing_else_is_trimmed(risk.level->0@);
    }
    if risk.mitigation is Some {
        texts::nothing_else_is_trimmed(risk.mitigation->0@);
        assert(front + risk.item@ + " -> "@ + risk.mitigation->0@ =~= front + risk.item@ + (
        " -> "@ + risk.mitigation->0@));
    } else {
        assert(front + risk.item@ + Seq::<char>::empty() =~= front + risk.item@);
    }
}

/// What is cut after its first lines says so; what is short enough is told without a word.
pub proof fn long_texts_are_cut_after_their_first_lines(
    s: Seq<char>,
    max: int,
    what: Seq<char>,
    width: int,
)
    requires
        0 <= max,
    ensures
        text::lines_of(s).len() <= max ==> swarm_details::excerpt(s, max, what, width)
            == swarm_details::indented(text::joined(text::lines_of(s), "\n"@), width),
        text::lines_of(s).len() > max ==> swarm_details::excerpt(s, max, what, width)
            == swarm_details::indented(
            text::joined(text::lines_of(s).take(max), "\n"@),
            width,
        ).push(
            " ("@ + what + " truncated; showing first "@ + text::decimal(max as nat) + " lines)"@,
        ),
{
}

/// The details of a task start with its identity, its state and its title, and then tell its agent,
/// its role, and whether it writes and has an output.
pub proof fn details_of_tasks_tell_who_does_what(
    names: Seq<Entry<String>>,
    view: SwarmPersistenceView,
    task: SwarmTaskPersistenceView,
    width: int,
)
    requires
        task.role is None,
    ensures
        ({
            let first: Seq<Seq<char>> = swarm_details::detail(
                "task"@,
                task.id@ + " ["@ + task.state@ + "] "@ + task.title@,
                width,
            );
            let second: Seq<Seq<char>> = swarm_details::detail(
                "meta"@,
                "agent="@ + task.agent_id@ + " role="@ + "-"@ + " writes="@ + (if task.writes {
                    "yes"@
                } else {
                    "no"@
                }) + " output="@ + (if task.output_present {
                    "yes"@
                } else {
                    "no"@
                }),
                width,
            );
            let all: Seq<Seq<char>> = swarm_details::task_details(names, view, task, width);
            &&& all.len() >= first.len() + second.len()
            &&& all.take(first.len() as int) == first
            &&& all.subrange(first.len() as int, (first.len() + second.len()) as int) == second
        }),
{
    reveal(swarm_details::task_details);
    let first: Seq<Seq<char>> = swarm_details::detail(
        "task"@,
        task.id@ + " ["@ + task.state@ + "] "@ + task.title@,
        width,
    );
    let second: Seq<Seq<char>> = swarm_details::detail(
        "meta"@,
        "agent="@ + task.agent_id@ + " role="@ + "-"@ + " writes="@ + dag::yes_no(task.writes)
            + " output="@ + dag::yes_no(task.output_present),
        width,
    );
    let all: Seq<Seq<char>> = swarm_details::task_details(names, view, task, width);
    assert(all.take(first.len() as int) =~= first);
    assert(all.subrange(first.len() as int, (first.len() + second.len()) as int) =~= second);
}

proof fn gate_is_told(gates: Seq<GateReportGate>, width: int, n: int, k: int) -> (at: int)
    requires
        0 <= k < n <= gates.len(),
    ensures
        0 <= at <= at + swarm_details::gate_details(gates[k], width).len()
            <= swarm_details::gates_details(gates, width, n).len(),
        swarm_details::gates_details(gates, width, n).subrange(
            at,
            at + swarm_details::gate_details(gates[k], width).len(),
        ) == swarm_details::gate_details(gates[k], width),
    decreases n,
{
    let before: Seq<Seq<char>> = swarm_details::gates_details(gates, width, n - 1);
    let all: Seq<Seq<char>> = swarm_details::gates_details(gates, width, n);
    let own: Seq<Seq<char>> = swarm_details::gate_details(gates[k], width);
    if k == n - 1 {
        assert(all.subrange(before.len() as int, (before.len() + own.len()) as int) =~= own);
        before.len() as int
    } else {
        let at: int = gate_is_told(gates, width, n - 1, k);
        assert(all.subrange(at, at + own.len()) =~= before.subrange(at, at + own.len()));
        at
    }
}

/// Every gate of a report is told in the details of the check.
pub proof fn every_gate_is_told(view: SwarmPersistenceView, width: int, k: int) -> (at: int)
    requires
        view.gate_report is Some,
        0 <= k < view.gate_report->0.gates@.len(),
    ensures
        0 <= at,
        at + swarm_details::gate_details(view.gate_report->0.gates@[k], width).len()
            <= swarm_details::verify_details(view, width).len(),
        swarm_details::verify_details(view, width).subrange(
            at,
            at + swarm_details::gate_details(view.gate_report->0.gates@[k], width).len(),
        ) == swarm_details::gate_details(view.gate_report->0.gates@[k], width),
{
    reveal(swarm_details::verify_details);
    let gates: Seq<GateReportGate> = view.gate_report->0.gates@;
    let own: Seq<Seq<char>> = swarm_details::gate_details(gates[k], width);
    let head: Seq<Seq<char>> = dag::block(
        seq!["Bundle"@, "Status"@, "Artifact"@],
        seq![
            swarm_details::text_or(view.gate_bundle, "none"@),
            swarm_details::verify_status(view),
            ".nit/swarm/"@ + view.mission_id@ + "/gates/verify.md"@,
        ],
        width,
    );
    let inner: Seq<Seq<char>> = swarm_details::gates_details(gates, width, gates.len() as int);
    let at: int = gate_is_told(gates, width, gates.len() as int, k);
    let all: Seq<Seq<char>> = swarm_details::verify_details(view, width);
    let from: int = head.len() + at;
    assert(all.subrange(from, from + own.len()) =~= inner.subrange(at, at + own.len()));
    from
}

/// All that is told of a swarm tells every task of it.
pub proof fn every_task_is_told(
    names: Seq<Entry<String>>,
    view: SwarmPersistenceView,
    width: int,
    n: int,
    k: int,
) -> (at: int)
    requires
        0 <= k < n <= view.tasks@.len(),
    ensures
        0 <= at,
        at + swarm_details::task_details(names, view, view.tasks@[k], width).len()
            <= swarm_details::tasks_in_full(names, view, width, n).len(),
        swarm_details::tasks_in_full(names, view, width, n).subrange(
            at,
            at + swarm_details::task_details(names, view, view.tasks@[k], width).len(),
        ) == swarm_details::task_details(names, view, view.tasks@[k], width),
    decreases n,
{
    let before: Seq<Seq<char>> = swarm_details::tasks_in_full(names, view, width, n - 1);
    let all: Seq<Seq<char>> = swarm_details::tasks_in_full(names, view, width, n);
    let own: Seq<Seq<char>> = swarm_details::task_details(names, view, view.tasks@[k], width);
    if k == n - 1 {
        let at: int = before.len() + 1int;
        assert(all.subrange(at, at + own.len()) =~= own);
        at
    } else {
        let at: int = every_task_is_told(names, view, width, n - 1, k);
        assert(all.subrange(at, at + own.len()) =~= before.subrange(at, at + own.len()));
        at
    }
}

/// A thread of the agent itself comes before those of others, and what is live before what was
/// saved.
pub proof fn own_threads_come_first(st: AppState, id: Seq<char>, agent: Seq<char>)
    requires
        st.agents.context_agent is Some,
        st.agents.context_agent->0@ == agent,
        state::value_of(st.agents.codex_mission_thread_ids@, id) is Some,
        state::value_of(
            state::value_of(st.agents.codex_mission_thread_ids@, id)->0@,
            agent,
        ) is Some,
    ensures
        provenance::mission_thread_id(st, id) == Some(
            state::value_of(
                state::value_of(st.agents.codex_mission_thread_ids@, id)->0@,
                agent,
            )->0@,
        ),
{
}

/// The thread of a chat is the live one where there is one, then that of the selected run, and then
/// that of the latest run.
pub proof fn live_threads_come_first(st: AppState, id: Seq<char>)
    ensures
        state::value_of(st.agents.codex_thread_ids@, id) is Some ==> provenance::chat_thread_id(
            st,
            id,
        ) == Some(state::value_of(st.agents.codex_thread_ids@, id)->0@),
        state::value_of(st.agents.codex_thread_ids@, id) is None
            && st.agents.artifacts_selected_saved_run_path is None && st.saved.current is Some
            ==> provenance::chat_thread_id(st, id) == text::opt_text(
            st.saved.current->0.run.codex_thread_id,
        ),
        state::value_of(st.agents.codex_thread_ids@, id) is None
            && st.agents.artifacts_selected_saved_run_path is None && st.saved.current is None
            ==> provenance::chat_thread_id(st, id) is None,
{
}

/// A mission that is not there is told as not found, by its identity.
pub proof fn missing_missions_are_told(st: AppState, id: Seq<char>, width: int)
    requires
        forall|k: int|
            0 <= k < st.agents.missions@.len() ==> (#[trigger] st.agents.missions@[k]).id@ != id,
    ensures
        provenance::mission_provenance(st, id, width) == seq![" Mission "@ + id + " not found."@],
{
    lookups::missions_are_found_by_identity(st.agents.missions@, id);
}

} // verus!
