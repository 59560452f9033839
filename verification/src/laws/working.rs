//! What is shown of agents at work, and where.

use vstd::prelude::*;

use crate::agent_console_view::breather;
use crate::agent_console_view::layout;
use crate::agent_console_view::messages;
use crate::agent_console_view::pane_table;
use crate::agent_console_view::rows::Row;
use crate::agent_console_view::stages;
use crate::agent_console_view::thread;
use crate::agent_console_view::turns;
use crate::geometry::Rect;
use crate::state::ActiveTurn;
use crate::state::AgentLane;
use crate::state::AppState;
use crate::state::SwarmProgress;
use crate::state::SwarmRuntime;
use crate::text;

verus! {

/// In the table, agents with a turn stand before those that wait, and those before the others.
pub proof fn working_agents_come_first(st: AppState, ids: Seq<Seq<char>>, j: int, k: int)
    requires
        0 <= j < k < pane_table::by_priority(st, ids).len(),
    ensures
        ({
            let a: Seq<char> = pane_table::by_priority(st, ids)[j];
            let b: Seq<char> = pane_table::by_priority(st, ids)[k];
            &&& turns::active(st, b) ==> turns::active(st, a)
            &&& turns::queued(st, b) ==> turns::active(st, a) || turns::queued(st, a)
        }),
{
    pane_table::table_is_sorted(st, ids, j, k);
}

proof fn busy_ones(st: AppState, in_context: bool, n: int, id: Seq<char>)
    requires
        n <= st.agents.agents@.len(),
    ensures
        breather::busy_upto(st, in_context, n).contains(id) <==> turns::busy(st, id) && exists|k: int|
            0 <= k < n && (#[trigger] st.agents.agents@[k]).id@ == id && breather::primary(
                st,
                st.agents.agents@[k],
            ) == in_context,
    decreases n,
{
    if n > 0 {
        busy_ones(st, in_context, n - 1, id);
        let before: Seq<Seq<char>> = breather::busy_upto(st, in_context, n - 1);
        let all: Seq<Seq<char>> = breather::busy_upto(st, in_context, n);
        let agent: AgentLane = st.agents.agents@[n - 1];
        if turns::busy(st, agent.id@) && breather::primary(st, agent) == in_context {
            assert(all == before.push(agent.id@));
            if before.contains(id) {
                assert(all[before.index_of(id)] == id);
            }
            if agent.id@ == id {
                assert(all[before.len() as int] == id);
            }
            if all.contains(id) {
                let k: int = all.index_of(id);
                if k < before.len() {
                    assert(before[k] == id);
                }
            }
        }
    }
}

proof fn joined_holds(v: Seq<Seq<char>>, more: Seq<Seq<char>>, n: int, id: Seq<char>)
    requires
        0 <= n <= more.len(),
    ensures
        breather::joined_upto(v, more, n).contains(id) <==> v.contains(id) || exists|k: int|
            0 <= k < n && #[trigger] more[k] == id,
    decreases n,
{
    if n > 0 {
        joined_holds(v, more, n - 1, id);
        let before: Seq<Seq<char>> = breather::joined_upto(v, more, n - 1);
        let all: Seq<Seq<char>> = breather::joined_upto(v, more, n);
        if !before.contains(more[n - 1]) {
            assert(all == before.push(more[n - 1]));
            if before.contains(id) {
                assert(all[before.index_of(id)] == id);
            }
            if more[n - 1] == id {
                assert(all[before.len() as int] == id);
            }
            if all.contains(id) {
                let k: int = all.index_of(id);
                if k < before.len() {
                    assert(before[k] == id);
                }
            }
        } else if more[n - 1] == id {
            assert(before.contains(id));
        }
    }
}

/// Every busy agent of the roster stands in the table, and so does every agent that is assigned to
/// the open swarm; nobody else does.
pub proof fn the_table_lists_who_is_busy_or_assigned(st: AppState, id: Seq<char>)
    ensures
        breather::ordered(st).contains(id) <==> {
            ||| turns::busy(st, id) && exists|k: int|
                0 <= k < st.agents.agents@.len() && (#[trigger] st.agents.agents@[k]).id@ == id
            ||| turns::open_swarm(st) is Some && exists|k: int|
                0 <= k < turns::open_swarm(st)->0.assigned_agents@.len() && (
                #[trigger] turns::open_swarm(st)->0.assigned_agents@[k])@ == id
        },
{
    let n: int = st.agents.agents@.len() as int;
    let first: Seq<Seq<char>> = breather::assigned(st);
    let near: Seq<Seq<char>> = breather::busy_agents(st, true);
    let far: Seq<Seq<char>> = breather::busy_agents(st, false);
    busy_ones(st, true, n, id);
    busy_ones(st, false, n, id);
    joined_holds(first, near, near.len() as int, id);
    joined_holds(breather::joined(first, near), far, far.len() as int, id);
    if near.contains(id) {
        assert(near[near.index_of(id)] == id);
    }
    if far.contains(id) {
        assert(far[far.index_of(id)] == id);
    }
    if turns::busy(st, id) && exists|k: int|
        0 <= k < st.agents.agents@.len() && (#[trigger] st.agents.agents@[k]).id@ == id {
        let k: int = choose|k: int|
            0 <= k < st.agents.agents@.len() && (#[trigger] st.agents.agents@[k]).id@ == id;
        assert(near.contains(id) || far.contains(id));
    }
    if turns::open_swarm(st) is Some {
        let given: Seq<Seq<char>> = text::texts(turns::open_swarm(st)->0.assigned_agents@);
        joined_holds(Seq::empty(), given, given.len() as int, id);
        if exists|k: int|
            0 <= k < turns::open_swarm(st)->0.assigned_agents@.len() && (
            #[trigger] turns::open_swarm(st)->0.assigned_agents@[k])@ == id {
            let k: int = choose|k: int|
                0 <= k < turns::open_swarm(st)->0.assigned_agents@.len() && (
                #[trigger] turns::open_swarm(st)->0.assigned_agents@[k])@ == id;
            assert(given[k] == id);
        }
        if first.contains(id) {
            let k: int = choose|k: int| 0 <= k < given.len() && #[trigger] given[k] == id;
            assert(turns::open_swarm(st)->0.assigned_agents@[k]@ == id);
        }
    }
}

/// Whose work belongs to what is chosen: with a mission chosen, that of agents on it or waiting for
/// a turn in it; with an agent chosen, its own and that of its copies; else everybody's.
pub proof fn work_belongs_to_what_is_chosen(st: AppState, agent: AgentLane)
    ensures
        st.agents.context_mission is Some && agent.current_mission is Some
            && agent.current_mission->0@ == st.agents.context_mission->0@ ==> breather::primary(
            st,
            agent,
        ),
        st.agents.context_mission is Some && breather::primary(st, agent) ==> (
        agent.current_mission is Some && agent.current_mission->0@ == st.agents.context_mission->0@)
            || turns::queued(st, agent.id@),
        st.agents.context_mission is None && st.agents.context_agent is Some ==> (
        breather::primary(st, agent) <==> agent.id@ == st.agents.context_agent->0@
            || st.agents.chat_clones.base(agent.id@) == Some(st.agents.context_agent->0@)),
        st.agents.context_mission is None && st.agents.context_agent is None ==> breather::primary(
            st,
            agent,
        ),
{
}

/// What an agent without a turn is said to do: it failed, waits for a turn, or has spoken in its
/// mission, in this order.
pub proof fn stages_without_a_turn(st: AppState, id: Seq<char>)
    requires
        turns::turn(st, id) is None,
    ensures
        ({
            let failed: bool = turns::lane(st, id) is Some && turns::lane(st, id)->0.status is Error;
            &&& failed ==> breather::table_stage(st, id) == "error"@
            &&& !failed && turns::open_swarm(st) is None && turns::queued(st, id)
                ==> breather::table_stage(st, id) == "queued"@
            &&& !failed && turns::open_swarm(st) is Some && turns::queued_in(
                st,
                id,
                st.agents.context_mission->0@,
            ) ==> breather::table_stage(st, id) == "swarm_queued"@
            &&& !failed && turns::open_swarm(st) is Some && !turns::queued(st, id)
                && breather::assigned(st).contains(id) && turns::spoke_in(
                st,
                id,
                st.agents.context_mission->0@,
            ) ==> breather::table_stage(st, id) == "swarm_done"@
            &&& !failed && turns::open_swarm(st) is Some && !turns::queued(st, id)
                && breather::assigned(st).contains(id) && !turns::spoke_in(
                st,
                id,
                st.agents.context_mission->0@,
            ) ==> breather::table_stage(st, id) == "swarm_pending"@
        }),
{
    if turns::open_swarm(st) is Some && !turns::queued(st, id) {
        assert(!turns::queued_in(st, id, st.agents.context_mission->0@)) by {
            let m: Seq<char> = st.agents.context_mission->0@;
            if turns::waits_in(st.agents.queued_codex_turns@, id, m) {
                assert(turns::waits(st.agents.queued_codex_turns@, id));
            }
            if turns::waits_in(st.agents.queued_claude_turns@, id, m) {
                assert(turns::waits(st.agents.queued_claude_turns@, id));
            }
        }
    }
}

/// The times of a turn are its own, each where it is known; one that waits has none.
pub proof fn turns_tell_their_times(t: ActiveTurn)
    ensures
        t.elapsed_secs is Some ==> breather::times(Some(t), false).0 == stages::span(
            t.elapsed_secs->0 as nat,
        ),
        t.elapsed_secs is None ==> breather::times(Some(t), false).0 == "--"@,
        t.heartbeat_secs is Some ==> breather::times(Some(t), false).1 == text::decimal(
            t.heartbeat_secs->0 as nat,
        ) + "s"@,
        t.output_secs is Some ==> breather::times(Some(t), false).2 == text::decimal(
            t.output_secs->0 as nat,
        ) + "s"@,
        breather::times(Some(t), true) == ("--"@, "--"@, "--"@),
        breather::times(None, false) == ("--"@, "--"@, "--"@),
{
}

/// A swarm that was aborted says so whatever its agents do; one in which nobody works or waits, and
/// that has no hint, is done exactly where it is complete.
pub proof fn swarms_say_how_they_stand(
    st: AppState,
    swarm: &SwarmRuntime,
    exec_label: Seq<char>,
    isolate: bool,
    p: SwarmProgress,
)
    requires
        pane_table::progress(st, Some(swarm)) == Some(p),
    ensures
        p.aborted ==> pane_table::swarm_headline(st, Some(swarm), exec_label, isolate)
            == "Aborted"@,
        !p.aborted && !pane_table::any_active(st, isolate) && !pane_table::any_queued(st, isolate)
            && p.hint is None && p.complete ==> pane_table::swarm_headline(
            st,
            Some(swarm),
            exec_label,
            isolate,
        ) == "Done"@,
        !p.aborted && !pane_table::any_active(st, isolate) && !pane_table::any_queued(st, isolate)
            && p.hint is None && !p.complete ==> pane_table::swarm_headline(
            st,
            Some(swarm),
            exec_label,
            isolate,
        ) == "Waiting ..."@,
        !p.aborted && pane_table::any_active(st, isolate) && p.stage is None
            ==> pane_table::swarm_headline(st, Some(swarm), exec_label, isolate) == exec_label,
        !p.aborted && !pane_table::any_active(st, isolate) && pane_table::any_queued(st, isolate)
            && p.stage is None ==> pane_table::swarm_headline(
            st,
            Some(swarm),
            exec_label,
            isolate,
        ) == "Queued ..."@,
        !p.aborted && pane_table::any_active(st, isolate) && p.stage is Some && p.stage->0@
            == "PLAN"@ ==> pane_table::swarm_headline(st, Some(swarm), exec_label, isolate)
            == "Planning ..."@,
{
}

/// The table shows six agents at most, unless all are asked for, and tells how many are left out.
pub proof fn long_tables_are_cut(st: AppState, total: int, width: int)
    requires
        total >= 0,
    ensures
        st.roster_no_truncate ==> pane_table::shown_count(st, total) == total,
        !st.roster_no_truncate && total <= 6 ==> pane_table::shown_count(st, total) == total,
        !st.roster_no_truncate && total > 6 ==> pane_table::shown_count(st, total) == 6,
        pane_table::more_row(0, width).len() == 0,
        total > 0 ==> pane_table::more_row(total, width).len() == 1,
{
}

proof fn body_goes_on(
    st: AppState,
    swarm: Option<&SwarmRuntime>,
    order: Seq<int>,
    pulse_on: bool,
    width: int,
    n: int,
    k: int,
) -> (at: int)
    requires
        0 <= k < n <= order.len(),
    ensures
        0 <= at,
        at + thread::part(st, swarm, order[k], pulse_on, width).len() <= thread::body_upto(
            st,
            swarm,
            order,
            pulse_on,
            width,
            n,
        ).len(),
        forall|i: int|
            0 <= i < thread::part(st, swarm, order[k], pulse_on, width).len()
                ==> #[trigger] thread::body_upto(st, swarm, order, pulse_on, width, n)[at + i]
                == thread::part(st, swarm, order[k], pulse_on, width)[i],
    decreases n,
{
    let before: Seq<Row> = thread::body_upto(st, swarm, order, pulse_on, width, n - 1);
    if k == n - 1 {
        before.len() as int
    } else {
        let at: int = body_goes_on(st, swarm, order, pulse_on, width, n - 1, k);
        assert forall|i: int|
            0 <= i < thread::part(st, swarm, order[k], pulse_on, width).len()
            implies #[trigger] thread::body_upto(st, swarm, order, pulse_on, width, n)[at + i]
            == before[at + i] by {}
        at
    }
}

/// Every message that is shown has its rows in the transcript, one behind another, and the agents
/// at work on a prompt stand right below it.
pub proof fn every_message_has_its_rows(
    st: AppState,
    swarm: Option<&SwarmRuntime>,
    order: Seq<int>,
    pulse_on: bool,
    width: int,
    k: int,
) -> (at: int)
    requires
        0 <= k < order.len(),
    ensures
        ({
            let all: Seq<Row> = thread::body(st, swarm, order, pulse_on, width);
            let own: Seq<Row> = messages::message_rows(st, swarm, order[k], width);
            &&& 0 <= at
            &&& at + own.len() <= all.len()
            &&& all.subrange(at, at + own.len()) == own
            &&& st.agents.messages@[order[k]].agent_id is None && turns::on_prompt(
                st,
                order[k],
            ).len() > 0 ==> ({
                let table: Seq<Row> = breather::inline_rows(
                    st,
                    turns::on_prompt(st, order[k]),
                    pulse_on,
                    width,
                );
                at + own.len() + table.len() <= all.len() && all.subrange(
                    at + own.len(),
                    at + own.len() + table.len(),
                ) == table
            })
        }),
{
    let at: int = body_goes_on(st, swarm, order, pulse_on, width, order.len() as int, k);
    let all: Seq<Row> = thread::body(st, swarm, order, pulse_on, width);
    let own: Seq<Row> = messages::message_rows(st, swarm, order[k], width);
    let part: Seq<Row> = thread::part(st, swarm, order[k], pulse_on, width);
    assert forall|i: int| 0 <= i < own.len() implies all.subrange(at, at + own.len())[i]
        == own[i] by {
        assert(all[at + i] == part[i]);
    }
    assert(all.subrange(at, at + own.len()) =~= own);
    if st.agents.messages@[order[k]].agent_id is None && turns::on_prompt(st, order[k]).len() > 0 {
        let table: Seq<Row> = breather::inline_rows(
            st,
            turns::on_prompt(st, order[k]),
            pulse_on,
            width,
        );
        assert(part == own + table);
        assert forall|i: int| 0 <= i < table.len() implies all.subrange(
            at + own.len(),
            at + own.len() + table.len(),
        )[i] == table[i] by {
            assert(all[at + (own.len() + i)] == part[own.len() + i]);
        }
        assert(all.subrange(at + own.len(), at + own.len() + table.len()) =~= table);
    }
    at
}

/// The input grows with its lines, up to the room that the pane leaves it.
pub proof fn the_input_grows_with_its_lines(inner: Rect, lines: int)
    requires
        lines >= 1,
    ensures
        1 <= layout::inner_height(inner, true, lines) <= 12,
        1 <= layout::inner_height(inner, false, lines) <= 8,
        layout::inner_height(inner, true, lines) <= lines,
        layout::inner_height(inner, false, lines) <= lines,
        lines <= 12 && inner.height >= lines + 4 ==> layout::inner_height(inner, true, lines)
            == lines,
        lines <= 8 && inner.height >= lines + 2 ==> layout::inner_height(inner, false, lines)
            == lines,
{
}

} // verus!
