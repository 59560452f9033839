//! The transcript of one of several panes.

use vstd::prelude::*;

use crate::agent_console_view::breather;
use crate::agent_console_view::cache;
use crate::agent_console_view::messages;
use crate::agent_console_view::pane_table;
use crate::agent_console_view::rows;
use crate::agent_console_view::rows::Row;
use crate::agent_console_view::rows::ThreadRow;
use crate::agent_console_view::rows::ThreadRowKind;
use crate::agent_console_view::stages;
use crate::agent_console_view::thread;
use crate::agent_console_view::turns;
use crate::state::AgentLane;
use crate::state::AppState;
use crate::state::SwarmRuntime;
use crate::text;

verus! {

/// Whether an agent belongs to a pane; every one does where there is one pane only.
pub open spec fn in_scope(
    st: AppState,
    lane: AgentLane,
    one_of_many: bool,
    mission: Option<Seq<char>>,
    agent: Option<Seq<char>>,
) -> bool {
    !one_of_many || (match (mission, agent) {
        (Some(m), _) => text::opt_text(lane.current_mission) == Some(m) || turns::queued_in(
            st,
            lane.id@,
            m,
        ),
        (None, Some(a)) => lane.id@ == a,
        (None, None) => true,
    })
}

pub fn lane_in_pane_scope(
    st: &AppState,
    lane: &AgentLane,
    pane_idx: Option<usize>,
    mission: Option<&str>,
    agent: Option<&str>,
) -> (r: bool)
    ensures
        r == in_scope(
            *st,
            *lane,
            pane_idx is Some,
            text::opt_str(mission),
            text::opt_str(agent),
        ),
{
    if pane_idx.is_none() {
        return true;
    }
    match (mission, agent) {
        (Some(m), _) => text::opt_str_eq(&lane.current_mission, m) || turns::is_queued_in(
            st,
            lane.id.as_str(),
            m,
        ),
        (None, Some(a)) => text::str_eq(lane.id.as_str(), a),
        (None, None) => true,
    }
}

/// Whether an agent of the pane that is at work is not shown yet.
pub open spec fn some_left(
    st: AppState,
    shown: Seq<Seq<char>>,
    one_of_many: bool,
    mission: Option<Seq<char>>,
    agent: Option<Seq<char>>,
) -> bool {
    exists|i: int|
        0 <= i < st.agents.agents@.len() && ({
            let lane: AgentLane = #[trigger] st.agents.agents@[i];
            in_scope(st, lane, one_of_many, mission, agent) && !shown.contains(lane.id@)
                && turns::busy(st, lane.id@)
        })
}

fn is_some_left(
    st: &AppState,
    shown: &Vec<String>,
    pane_idx: Option<usize>,
    mission: Option<&str>,
    agent: Option<&str>,
) -> (r: bool)
    ensures
        r == some_left(
            *st,
            text::texts(shown@),
            pane_idx is Some,
            text::opt_str(mission),
            text::opt_str(agent),
        ),
{
    let ghost all: Seq<Seq<char>> = text::texts(shown@);
    let ghost m: Option<Seq<char>> = text::opt_str(mission);
    let ghost a: Option<Seq<char>> = text::opt_str(agent);
    let mut i: usize = 0;
    while i < st.agents.agents.len()
        invariant
            i <= st.agents.agents@.len(),
            all == text::texts(shown@),
            m == text::opt_str(mission),
            a == text::opt_str(agent),
            forall|j: int|
                0 <= j < i ==> !({
                    let lane: AgentLane = #[trigger] st.agents.agents@[j];
                    in_scope(*st, lane, pane_idx is Some, m, a) && !all.contains(lane.id@)
                        && turns::busy(*st, lane.id@)
                }),
        decreases st.agents.agents@.len() - i,
    {
        let lane: &AgentLane = &st.agents.agents[i];
        if lane_in_pane_scope(st, lane, pane_idx, mission, agent) && !breather::is_among(
            shown,
            lane.id.as_str(),
        ) && turns::is_busy(st, lane.id.as_str()) {
            return true;
        }
        i += 1;
    }
    false
}

/// Whether some mission of this name is a swarm.
pub open spec fn is_swarm(st: AppState, mission: Option<Seq<char>>) -> bool {
    match mission {
        Some(id) => exists|i: int|
            0 <= i < st.agents.missions@.len() && (#[trigger] st.agents.missions@[i]).id@ == id
                && st.agents.missions@[i].swarm,
        None => false,
    }
}

fn is_swarm_mission(st: &AppState, mission: Option<&str>) -> (r: bool)
    ensures
        r == is_swarm(*st, text::opt_str(mission)),
{
    let id: &str = match mission {
        Some(id) => id,
        None => {
            return false;
        },
    };
    let mut i: usize = 0;
    while i < st.agents.missions.len()
        invariant
            i <= st.agents.missions@.len(),
            mission == Some(id),
            forall|j: int|
                0 <= j < i ==> !((#[trigger] st.agents.missions@[j]).id@ == id@
                    && st.agents.missions@[j].swarm),
        decreases st.agents.missions@.len() - i,
    {
        if text::str_eq(st.agents.missions[i].id.as_str(), id) && st.agents.missions[i].swarm {
            return true;
        }
        i += 1;
    }
    false
}

/// `s` with every `p` taken out.
pub open spec fn without(s: Seq<char>, p: Seq<char>) -> Seq<char>
    decreases s.len(),
{
    match text::around(s, p) {
        Some(parts) => if parts.1.len() < s.len() {
            parts.0 + without(parts.1, p)
        } else {
            s
        },
        None => s,
    }
}

fn take_out(s: &str, p: &str) -> (r: String)
    ensures
        r@ == without(s@, p@),
    decreases s@.len(),
{
    match text::split_once(s, p) {
        Some(parts) => if text::length(parts.1.as_str()) < text::length(s) {
            text::cat2(parts.0.as_str(), take_out(parts.1.as_str(), p).as_str())
        } else {
            text::copy(s)
        },
        None => text::copy(s),
    }
}

/// A row that links to no artifact.
pub open spec fn unlinked(row: Row) -> Row {
    if row.kind is ArtifactLink {
        rows::row(without(row.text, " (see ARTIFACTS)"@), ThreadRowKind::Agent)
    } else {
        row
    }
}

/// Rows that link to no artifact.
pub open spec fn all_unlinked(v: Seq<Row>) -> Seq<Row> {
    Seq::new(v.len(), |i: int| unlinked(v[i]))
}

fn unlink(v: Vec<ThreadRow>) -> (r: Vec<ThreadRow>)
    ensures
        rows::rows(r@) == all_unlinked(rows::rows(v@)),
{
    broadcast use rows::group_rows;

    let ghost want: Seq<Row> = all_unlinked(rows::rows(v@));
    let mut out: Vec<ThreadRow> = Vec::new();
    let mut i: usize = 0;
    assert(rows::rows(out@) =~= want.take(0));
    while i < v.len()
        invariant
            i <= v@.len(),
            want == all_unlinked(rows::rows(v@)),
            rows::rows(out@) == want.take(i as int),
        decreases v@.len() - i,
    {
        assert(rows::rows(v@)[i as int] == v@[i as int]@);
        let link: bool = match v[i].kind {
            ThreadRowKind::ArtifactLink => true,
            _ => false,
        };
        if link {
            rows::push_row(
                &mut out,
                take_out(v[i].text.as_str(), " (see ARTIFACTS)"),
                ThreadRowKind::Agent,
            );
        } else {
            rows::push_row(&mut out, v[i].text.clone(), v[i].kind);
        }
        i += 1;
        assert(want.take(i as int) =~= want.take(i - 1) + seq![want[i - 1]]);
    }
    assert(want.take(i as int) =~= want);
    out
}

/// The transcript of a pane. `order` are the messages that belong to it, in the order in which they
/// are shown, and `exec_label` is what is said of its swarm while it executes.
pub open spec fn pane_rows(
    st: AppState,
    swarm: Option<&SwarmRuntime>,
    order: Seq<int>,
    exec_label: Seq<char>,
    one_of_many: bool,
    agent: Option<Seq<char>>,
    mission: Option<Seq<char>>,
    width: int,
) -> Seq<Row> {
    let pulse: bool = stages::pulse_on(st.frame_count);
    let shown: Seq<Seq<char>> = thread::shown_upto(st, order, order.len() as int);
    thread::body(st, swarm, order, pulse, width) + (if some_left(
        st,
        shown,
        one_of_many,
        mission,
        agent,
    ) || (is_swarm(st, mission) && shown.len() == 0) {
        pane_table::table(st, swarm, exec_label, pulse, width, true)
    } else {
        Seq::empty()
    })
}

pub fn build_pane_thread_rows_with_breathers_for_pane(
    st: &AppState,
    swarm: Option<&SwarmRuntime>,
    order: &Vec<usize>,
    exec_label: &str,
    pane_idx: Option<usize>,
    agent: Option<&str>,
    mission: Option<&str>,
    width: usize,
    suppress_artifacts: bool,
) -> (r: Vec<ThreadRow>)
    requires
        forall|k: int| 0 <= k < order@.len() ==> (#[trigger] order@[k]) < st.agents.messages@.len(),
    ensures
        ({
            let all: Seq<Row> = pane_rows(
                *st,
                swarm,
                messages::ints(order@),
                exec_label@,
                pane_idx is Some,
                text::opt_str(agent),
                text::opt_str(mission),
                width as int,
            );
            rows::rows(r@) == (if suppress_artifacts {
                all_unlinked(all)
            } else {
                all
            })
        }),
{
    broadcast use {rows::group_rows, text::group_line_lists};

    let pulse: bool = stages::pulse_on(st.frame_count);
    let ghost places: Seq<int> = messages::ints(order@);
    assert(places.len() == order@.len());
    let mut shown: Vec<String> = Vec::new();
    let mut out: Vec<ThreadRow> = Vec::new();
    assert(text::texts(shown@) =~= Seq::<Seq<char>>::empty());
    let mut i: usize = 0;
    while i < order.len()
        invariant
            i <= order@.len(),
            places == messages::ints(order@),
            forall|k: int| 0 <= k < order@.len() ==> (#[trigger] order@[k])
                < st.agents.messages@.len(),
            text::texts(shown@) == thread::shown_upto(*st, places, i as int),
            rows::rows(out@) == thread::body_upto(
                *st,
                swarm,
                places,
                pulse,
                width as int,
                i as int,
            ),
        decreases order@.len() - i,
    {
        broadcast use {rows::group_rows, text::group_line_lists};

        let idx: usize = order[i];
        assert(places[i as int] == idx);
        rows::append_rows(&mut out, messages::format_message_rows(st, swarm, idx, width));
        if st.agents.messages[idx].agent_id.is_none() {
            cache::push_place(&mut out, &mut shown, st, idx, pulse, width);
        }
        i += 1;
    }
    assert(text::texts(shown@).len() == shown@.len());
    if is_some_left(st, &shown, pane_idx, mission, agent) || (is_swarm_mission(st, mission)
        && shown.len() == 0) {
        rows::append_rows(
            &mut out,
            pane_table::breather_rows_for_user_prompt(st, swarm, exec_label, pulse, width, true),
        );
    }
    if suppress_artifacts {
        unlink(out)
    } else {
        out
    }
}

pub fn build_pane_thread_rows_with_breathers(
    st: &AppState,
    swarm: Option<&SwarmRuntime>,
    order: &Vec<usize>,
    exec_label: &str,
    agent: Option<&str>,
    mission: Option<&str>,
    width: usize,
    suppress_artifacts: bool,
) -> (r: Vec<ThreadRow>)
    requires
        forall|k: int| 0 <= k < order@.len() ==> (#[trigger] order@[k]) < st.agents.messages@.len(),
    ensures
        ({
            let all: Seq<Row> = pane_rows(
                *st,
                swarm,
                messages::ints(order@),
                exec_label@,
                false,
                text::opt_str(agent),
                text::opt_str(mission),
                width as int,
            );
            rows::rows(r@) == (if suppress_artifacts {
                all_unlinked(all)
            } else {
                all
            })
        }),
{
    build_pane_thread_rows_with_breathers_for_pane(
        st,
        swarm,
        order,
        exec_label,
        None,
        agent,
        mission,
        width,
        suppress_artifacts,
    )
}

/// A pane whose agents are all shown below their prompts has no further table, whatever the agents
/// of other panes do.
pub proof fn other_panes_add_no_table(
    st: AppState,
    swarm: Option<&SwarmRuntime>,
    order: Seq<int>,
    exec_label: Seq<char>,
    agent: Option<Seq<char>>,
    mission: Option<Seq<char>>,
    width: int,
)
    requires
        !is_swarm(st, mission),
        forall|i: int|
            0 <= i < st.agents.agents@.len() && in_scope(
                st,
                #[trigger] st.agents.agents@[i],
                true,
                mission,
                agent,
            ) && turns::busy(st, st.agents.agents@[i].id@) ==> thread::shown_upto(
                st,
                order,
                order.len() as int,
            ).contains(st.agents.agents@[i].id@),
    ensures
        pane_rows(st, swarm, order, exec_label, true, agent, mission, width) == thread::body(
            st,
            swarm,
            order,
            stages::pulse_on(st.frame_count),
            width,
        ),
{
    let all: Seq<Row> = thread::body(st, swarm, order, stages::pulse_on(st.frame_count), width);
    assert(all + Seq::<Row>::empty() =~= all);
}

} // verus!
