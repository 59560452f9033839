//! The table of the agents at work.

use vstd::prelude::*;

use crate::agent_console_view::footer;
use crate::agent_console_view::messages;
use crate::agent_console_view::rows;
use crate::agent_console_view::rows::Row;
use crate::agent_console_view::rows::ThreadRow;
use crate::agent_console_view::rows::ThreadRowKind;
use crate::agent_console_view::stages;
use crate::agent_console_view::turns;
use crate::fit;
use crate::state;
use crate::state::ActiveTurn;
use crate::state::AgentLane;
use crate::state::AgentStatus;
use crate::state::AppState;
use crate::state::SwarmRuntime;
use crate::text;

verus! {

/// The width of the column of names.
pub open spec fn name_width(width: int) -> int {
    text::max_int(text::monus(width, 18), 1)
}

/// A row of the table.
pub open spec fn table_row(
    name: Seq<char>,
    elapsed: Seq<char>,
    heartbeat: Seq<char>,
    output: Seq<char>,
    width: int,
    kind: ThreadRowKind,
) -> Row {
    rows::row(
        fit::padded(
            fit::left(name, name_width(width)) + " "@ + fit::right(elapsed, 6) + " "@ + fit::right(
                heartbeat,
                4,
            ) + " "@ + fit::right(output, 4),
            width,
        ),
        kind,
    )
}

pub fn push_table_row(
    out: &mut Vec<ThreadRow>,
    name: &str,
    elapsed: &str,
    heartbeat: &str,
    output: &str,
    width: usize,
    kind: ThreadRowKind,
)
    ensures
        rows::rows(final(out)@) == rows::rows(old(out)@) + seq![
            table_row(name@, elapsed@, heartbeat@, output@, width as int, kind),
        ],
{
    let w: usize = text::max_of(text::minus(width, 18), 1);
    let line: String = text::cat7(
        fit::fit_left(name, w).as_str(),
        " ",
        fit::fit_right(elapsed, 6).as_str(),
        " ",
        fit::fit_right(heartbeat, 4).as_str(),
        " ",
        fit::fit_right(output, 4).as_str(),
    );
    rows::push_row(out, fit::pad_to_width(line.as_str(), width), kind);
}

/// The header of the table.
pub open spec fn table_head(width: int) -> Row {
    table_row("AGENT"@, "ELAP"@, "HB"@, "OUT"@, width, ThreadRowKind::StatusHeader)
}

pub fn push_table_head(out: &mut Vec<ThreadRow>, width: usize)
    ensures
        rows::rows(final(out)@) == rows::rows(old(out)@) + seq![table_head(width as int)],
{
    push_table_row(out, "AGENT", "ELAP", "HB", "OUT", width, ThreadRowKind::StatusHeader);
}

/// A number of seconds; dashes where it is not known.
pub open spec fn seconds(secs: Option<u64>) -> Seq<char> {
    match secs {
        Some(s) => text::decimal(s as nat) + "s"@,
        None => "--"@,
    }
}

pub fn seconds_of(secs: Option<u64>) -> (r: String)
    ensures
        r@ == seconds(secs),
{
    match secs {
        Some(s) => text::cat2(text::decimal_u64(s).as_str(), "s"),
        None => text::copy("--"),
    }
}

/// A time span; dashes where it is not known.
pub open spec fn opt_span(secs: Option<u64>) -> Seq<char> {
    match secs {
        Some(s) => stages::span(s as nat),
        None => "--"@,
    }
}

pub fn opt_span_of(secs: Option<u64>) -> (r: String)
    ensures
        r@ == opt_span(secs),
{
    match secs {
        Some(s) => stages::format_duration_compact(s),
        None => text::copy("--"),
    }
}

/// The times of a turn: how long it runs, since when it is silent, since when it said nothing.
pub open spec fn times(turn: Option<ActiveTurn>, suppress: bool) -> (Seq<char>, Seq<char>, Seq<char>) {
    match turn {
        Some(t) if !suppress => (
            opt_span(t.elapsed_secs),
            seconds(t.heartbeat_secs),
            seconds(t.output_secs),
        ),
        _ => ("--"@, "--"@, "--"@),
    }
}

pub fn times_of(turn: Option<&ActiveTurn>, suppress: bool) -> (r: (String, String, String))
    ensures
        (r.0@, r.1@, r.2@) == times(
            match turn {
                Some(t) => Some(*t),
                None => None,
            },
            suppress,
        ),
{
    match turn {
        Some(t) => if suppress {
            (text::copy("--"), text::copy("--"), text::copy("--"))
        } else {
            (opt_span_of(t.elapsed_secs), seconds_of(t.heartbeat_secs), seconds_of(t.output_secs))
        },
        None => (text::copy("--"), text::copy("--"), text::copy("--")),
    }
}

/// The stage of a turn.
pub open spec fn turn_stage(turn: ActiveTurn) -> Seq<char> {
    match turn.stage {
        Some(s) => s@,
        None => "starting"@,
    }
}

/// What an agent is doing, in words; the bare stage where the agent is not known.
pub open spec fn stage_of(st: AppState, id: Seq<char>, raw: Seq<char>) -> Seq<char> {
    match turns::lane(st, id) {
        Some(agent) => stages::stage_label(st, agent, raw),
        None => raw,
    }
}

pub fn describe_stage(st: &AppState, id: &str, raw: &str) -> (r: String)
    ensures
        r@ == stage_of(*st, id@, raw@),
{
    match turns::find_lane(st, id) {
        Some(agent) => stages::format_agent_stage_label(st, agent, raw),
        None => text::copy(raw),
    }
}

/// Two rows of the table: an agent with its times, and below it what it is doing.
pub open spec fn agent_rows(
    st: AppState,
    id: Seq<char>,
    raw: Seq<char>,
    suppress: bool,
    width: int,
) -> Seq<Row> {
    let (elapsed, heartbeat, output) = times(turns::turn(st, id), suppress);
    seq![
        table_row(
            messages::named(st, id),
            elapsed,
            heartbeat,
            output,
            width,
            ThreadRowKind::StatusRow,
        ),
        table_row(
            "↳ "@ + stage_of(st, id, raw),
            ""@,
            ""@,
            ""@,
            width,
            ThreadRowKind::StatusSubRow,
        ),
    ]
}

pub fn push_agent_rows(
    out: &mut Vec<ThreadRow>,
    st: &AppState,
    id: &str,
    raw: &str,
    suppress: bool,
    width: usize,
)
    ensures
        rows::rows(final(out)@) == rows::rows(old(out)@) + agent_rows(
            *st,
            id@,
            raw@,
            suppress,
            width as int,
        ),
{
    let ghost before: Seq<Row> = rows::rows(out@);
    let name: String = messages::name_of(st, id);
    let (elapsed, heartbeat, output): (String, String, String) = times_of(
        turns::find_turn(st, id),
        suppress,
    );
    push_table_row(
        out,
        name.as_str(),
        elapsed.as_str(),
        heartbeat.as_str(),
        output.as_str(),
        width,
        ThreadRowKind::StatusRow,
    );
    let stage: String = describe_stage(st, id, raw);
    let line: String = text::cat2("↳ ", stage.as_str());
    push_table_row(out, line.as_str(), "", "", "", width, ThreadRowKind::StatusSubRow);
    assert(rows::rows(out@) =~= before + agent_rows(*st, id@, raw@, suppress, width as int));
}

/// The stage of an agent that answers a prompt.
pub open spec fn inline_stage(st: AppState, id: Seq<char>) -> Seq<char> {
    match turns::turn(st, id) {
        Some(t) => turn_stage(t),
        None => "queued"@,
    }
}

/// The rows on the first `n` agents that answer a prompt.
pub open spec fn inline_agents(st: AppState, ids: Seq<Seq<char>>, width: int, n: int) -> Seq<Row>
    decreases n,
{
    if n <= 0 {
        Seq::empty()
    } else {
        let raw: Seq<char> = inline_stage(st, ids[n - 1]);
        inline_agents(st, ids, width, n - 1) + agent_rows(
            st,
            ids[n - 1],
            raw,
            raw == "queued"@,
            width,
        )
    }
}

/// The first of some texts.
pub open spec fn first_of(ids: Seq<Seq<char>>) -> Option<Seq<char>> {
    if ids.len() > 0 {
        Some(ids[0])
    } else {
        None
    }
}

/// The table of the agents that answer a prompt.
pub open spec fn inline_rows(
    st: AppState,
    ids: Seq<Seq<char>>,
    pulse_on: bool,
    given: int,
) -> Seq<Row> {
    let width: int = text::max_int(given, 1);
    seq![
        rows::row(
            stages::beat(st.frame_count, first_of(ids), pulse_on, true) + " Working ..."@,
            ThreadRowKind::Breather,
        ),
        table_head(width),
    ] + inline_agents(st, ids, width, ids.len() as int)
}

pub fn inline_breather_rows(st: &AppState, ids: &Vec<String>, pulse_on: bool, given: usize) -> (r: Vec<
    ThreadRow,
>)
    ensures
        rows::rows(r@) == inline_rows(*st, text::texts(ids@), pulse_on, given as int),
{
    broadcast use rows::group_rows;

    let width: usize = text::max_of(given, 1);
    let ghost all: Seq<Seq<char>> = text::texts(ids@);
    let first: Option<&str> = if ids.len() > 0 {
        assert(all[0] == ids@[0]@);
        Some(ids[0].as_str())
    } else {
        None
    };
    let beat: &str = stages::ecg_indicator(st.frame_count, first, pulse_on, true);
    let mut out: Vec<ThreadRow> = Vec::new();
    rows::push_row(&mut out, text::cat2(beat, " Working ..."), ThreadRowKind::Breather);
    push_table_head(&mut out, width);
    let ghost head: Seq<Row> = rows::rows(out@);
    assert(head =~= seq![
        rows::row(
            stages::beat(st.frame_count, first_of(all), pulse_on, true) + " Working ..."@,
            ThreadRowKind::Breather,
        ),
        table_head(width as int),
    ]);
    let mut i: usize = 0;
    while i < ids.len()
        invariant
            i <= ids@.len(),
            all == text::texts(ids@),
            rows::rows(out@) == head + inline_agents(*st, all, width as int, i as int),
        decreases ids@.len() - i,
    {
        broadcast use rows::group_rows;

        let id: &str = ids[i].as_str();
        assert(all[i as int] == id@);
        let raw: String = match turns::find_turn(st, id) {
            Some(t) => match &t.stage {
                Some(s) => s.clone(),
                None => text::copy("starting"),
            },
            None => text::copy("queued"),
        };
        let suppress: bool = text::str_eq(raw.as_str(), "queued");
        push_agent_rows(&mut out, st, id, raw.as_str(), suppress, width);
        i += 1;
    }
    out
}

/// Whether an agent is one of those whose work the open mission or agent is about.
pub open spec fn primary(st: AppState, agent: AgentLane) -> bool {
    match (st.agents.context_mission, st.agents.context_agent) {
        (Some(m), _) => text::opt_text(agent.current_mission) == Some(m@) || turns::queued_in(
            st,
            agent.id@,
            m@,
        ),
        (None, Some(a)) => turns::is_or_copies(st, agent.id@, a@),
        (None, None) => true,
    }
}

fn is_primary(st: &AppState, agent: &AgentLane) -> (r: bool)
    ensures
        r == primary(*st, *agent),
{
    match (&st.agents.context_mission, &st.agents.context_agent) {
        (Some(m), _) => text::opt_str_eq(&agent.current_mission, m.as_str()) || turns::is_queued_in(
            st,
            agent.id.as_str(),
            m.as_str(),
        ),
        (None, Some(a)) => turns::is_same_or_copy(st, agent.id.as_str(), a.as_str()),
        (None, None) => true,
    }
}

/// The busy ones among the first `n` agents: those that the context is about, or the others.
pub open spec fn busy_upto(st: AppState, in_context: bool, n: int) -> Seq<Seq<char>>
    decreases n,
{
    if n <= 0 {
        Seq::empty()
    } else {
        let before: Seq<Seq<char>> = busy_upto(st, in_context, n - 1);
        let agent: AgentLane = st.agents.agents@[n - 1];
        if turns::busy(st, agent.id@) && primary(st, agent) == in_context {
            before.push(agent.id@)
        } else {
            before
        }
    }
}

/// The busy agents that the context is about, or the others.
pub open spec fn busy_agents(st: AppState, in_context: bool) -> Seq<Seq<char>> {
    busy_upto(st, in_context, st.agents.agents@.len() as int)
}

pub fn collect_busy(st: &AppState, in_context: bool) -> (r: Vec<String>)
    ensures
        text::texts(r@) == busy_agents(*st, in_context),
{
    broadcast use text::group_texts;

    let mut out: Vec<String> = Vec::new();
    let mut i: usize = 0;
    while i < st.agents.agents.len()
        invariant
            i <= st.agents.agents@.len(),
            text::texts(out@) == busy_upto(*st, in_context, i as int),
        decreases st.agents.agents@.len() - i,
    {
        broadcast use text::group_texts;

        let agent: &AgentLane = &st.agents.agents[i];
        if turns::is_busy(st, agent.id.as_str()) && is_primary(st, agent) == in_context {
            out.push(agent.id.clone());
        }
        i += 1;
    }
    out
}

/// `v` and behind it those of the first `n` of `more` that are not there yet.
pub open spec fn joined_upto(v: Seq<Seq<char>>, more: Seq<Seq<char>>, n: int) -> Seq<Seq<char>>
    decreases n,
{
    if n <= 0 {
        v
    } else {
        let before: Seq<Seq<char>> = joined_upto(v, more, n - 1);
        if before.contains(more[n - 1]) {
            before
        } else {
            before.push(more[n - 1])
        }
    }
}

/// `v` and behind it those of `more` that are not there yet.
pub open spec fn joined(v: Seq<Seq<char>>, more: Seq<Seq<char>>) -> Seq<Seq<char>> {
    joined_upto(v, more, more.len() as int)
}

/// Whether a text is among others.
pub fn is_among(v: &Vec<String>, s: &str) -> (r: bool)
    ensures
        r == text::texts(v@).contains(s@),
{
    let ghost all: Seq<Seq<char>> = text::texts(v@);
    let found: bool = state::contains_text(v, s);
    proof {
        if found {
            let i: int = choose|i: int| 0 <= i < v@.len() && (#[trigger] v@[i])@ == s@;
            assert(all[i] == s@);
        } else if all.contains(s@) {
            let i: int = choose|i: int| 0 <= i < all.len() && all[i] == s@;
            assert(v@[i]@ == s@);
        }
    }
    found
}

pub fn join_new(v: Vec<String>, more: &Vec<String>) -> (r: Vec<String>)
    ensures
        text::texts(r@) == joined(text::texts(v@), text::texts(more@)),
{
    broadcast use text::group_texts;

    let ghost first: Seq<Seq<char>> = text::texts(v@);
    let ghost all: Seq<Seq<char>> = text::texts(more@);
    let mut out: Vec<String> = v;
    let mut i: usize = 0;
    while i < more.len()
        invariant
            i <= more@.len(),
            all == text::texts(more@),
            text::texts(out@) == joined_upto(first, all, i as int),
        decreases more@.len() - i,
    {
        broadcast use text::group_texts;

        assert(all[i as int] == more@[i as int]@);
        if !is_among(&out, more[i].as_str()) {
            out.push(more[i].clone());
        }
        i += 1;
    }
    out
}

proof fn joined_are_distinct_upto(v: Seq<Seq<char>>, more: Seq<Seq<char>>, n: int)
    requires
        v.no_duplicates(),
    ensures
        joined_upto(v, more, n).no_duplicates(),
    decreases n,
{
    if n > 0 {
        joined_are_distinct_upto(v, more, n - 1);
    }
}

/// The agents that are assigned to the open swarm, each once.
pub open spec fn assigned(st: AppState) -> Seq<Seq<char>> {
    match turns::open_swarm(st) {
        Some(m) => joined(Seq::empty(), text::texts(m.assigned_agents@)),
        None => Seq::empty(),
    }
}

pub fn collect_assigned(st: &AppState) -> (r: Vec<String>)
    ensures
        text::texts(r@) == assigned(*st),
{
    broadcast use text::group_texts;

    let none: Vec<String> = Vec::new();
    match turns::find_open_swarm(st) {
        Some(m) => join_new(none, &m.assigned_agents),
        None => none,
    }
}

/// The agents of the table: those of the open swarm, then the busy ones, those that the context is
/// about first.
pub open spec fn ordered(st: AppState) -> Seq<Seq<char>> {
    joined(joined(assigned(st), busy_agents(st, true)), busy_agents(st, false))
}

/// No agent is in the table twice.
pub proof fn agents_are_listed_once(st: AppState)
    ensures
        ordered(st).no_duplicates(),
{
    let a: Seq<Seq<char>> = assigned(st);
    if let Some(m) = turns::open_swarm(st) {
        joined_are_distinct_upto(
            Seq::empty(),
            text::texts(m.assigned_agents@),
            m.assigned_agents@.len() as int,
        );
    }
    let p: Seq<Seq<char>> = busy_agents(st, true);
    joined_are_distinct_upto(a, p, p.len() as int);
    let s: Seq<Seq<char>> = busy_agents(st, false);
    joined_are_distinct_upto(joined(a, p), s, s.len() as int);
}

/// Whether one of some agents is at work.
pub open spec fn any_active(st: AppState, ids: Seq<Seq<char>>) -> bool {
    exists|i: int| 0 <= i < ids.len() && turns::active(st, #[trigger] ids[i])
}

/// Whether a turn of one of some agents waits.
pub open spec fn any_queued(st: AppState, ids: Seq<Seq<char>>) -> bool {
    exists|i: int| 0 <= i < ids.len() && turns::queued(st, #[trigger] ids[i])
}

/// Whether all of some agents have spoken in a mission.
pub open spec fn all_spoke(st: AppState, ids: Seq<Seq<char>>, mission: Seq<char>) -> bool {
    ids.len() > 0 && forall|i: int|
        0 <= i < ids.len() ==> turns::spoke_in(st, #[trigger] ids[i], mission)
}

pub fn is_any_active(st: &AppState, ids: &Vec<String>) -> (r: bool)
    ensures
        r == any_active(*st, text::texts(ids@)),
{
    let ghost all: Seq<Seq<char>> = text::texts(ids@);
    let mut i: usize = 0;
    while i < ids.len()
        invariant
            i <= ids@.len(),
            all == text::texts(ids@),
            forall|j: int| 0 <= j < i ==> !turns::active(*st, #[trigger] all[j]),
        decreases ids@.len() - i,
    {
        assert(all[i as int] == ids@[i as int]@);
        if turns::is_active(st, ids[i].as_str()) {
            return true;
        }
        i += 1;
    }
    false
}

pub fn is_any_queued(st: &AppState, ids: &Vec<String>) -> (r: bool)
    ensures
        r == any_queued(*st, text::texts(ids@)),
{
    let ghost all: Seq<Seq<char>> = text::texts(ids@);
    let mut i: usize = 0;
    while i < ids.len()
        invariant
            i <= ids@.len(),
            all == text::texts(ids@),
            forall|j: int| 0 <= j < i ==> !turns::queued(*st, #[trigger] all[j]),
        decreases ids@.len() - i,
    {
        assert(all[i as int] == ids@[i as int]@);
        if turns::is_queued(st, ids[i].as_str()) {
            return true;
        }
        i += 1;
    }
    false
}

pub fn have_all_spoken(st: &AppState, ids: &Vec<String>, mission: &str) -> (r: bool)
    ensures
        r == all_spoke(*st, text::texts(ids@), mission@),
{
    let ghost all: Seq<Seq<char>> = text::texts(ids@);
    let mut i: usize = 0;
    while i < ids.len()
        invariant
            i <= ids@.len(),
            all == text::texts(ids@),
            forall|j: int| 0 <= j < i ==> turns::spoke_in(*st, #[trigger] all[j], mission@),
        decreases ids@.len() - i,
    {
        assert(all[i as int] == ids@[i as int]@);
        if !turns::has_spoken_in(st, ids[i].as_str(), mission) {
            return false;
        }
        i += 1;
    }
    ids.len() > 0
}

/// The stage of a mission's swarm.
pub open spec fn swarm_stage(swarm: Option<&SwarmRuntime>, mission: Seq<char>) -> Option<Seq<char>> {
    match swarm {
        Some(s) => match state::value_of(s.progress@, mission) {
            Some(p) => text::opt_text(p.stage),
            None => None,
        },
        None => None,
    }
}

pub fn find_swarm_stage(swarm: Option<&SwarmRuntime>, mission: &str) -> (r: Option<String>)
    ensures
        text::opt_text(r) == swarm_stage(swarm, mission@),
{
    match swarm {
        Some(s) => match state::lookup(&s.progress, mission) {
            Some(p) => state::clone_opt(&p.stage),
            None => None,
        },
        None => None,
    }
}

/// What the agents of the table do together.
pub open spec fn headline(st: AppState, swarm: Option<&SwarmRuntime>) -> Seq<char> {
    let ids: Seq<Seq<char>> = ordered(st);
    match turns::open_swarm(st) {
        Some(m) => {
            let mission: Seq<char> = st.agents.context_mission->0@;
            let stage: Option<Seq<char>> = swarm_stage(swarm, mission);
            if any_active(st, ids) || any_queued(st, ids) {
                if stage == Some("VERIFY"@) {
                    "Verifying ..."@
                } else if stage == Some("SYNTH"@) {
                    "Synthesizing ..."@
                } else if any_active(st, ids) {
                    "Working ..."@
                } else {
                    "Queued ..."@
                }
            } else if all_spoke(st, assigned(st), mission) {
                "Done"@
            } else {
                "Waiting ..."@
            }
        },
        None => if !any_active(st, ids) && any_queued(st, ids) {
            "Queued ..."@
        } else {
            "Working ..."@
        },
    }
}

fn headline_of(
    st: &AppState,
    swarm: Option<&SwarmRuntime>,
    ids: &Vec<String>,
    assigned_ids: &Vec<String>,
) -> (r: &'static str)
    requires
        text::texts(ids@) == ordered(*st),
        text::texts(assigned_ids@) == assigned(*st),
    ensures
        r@ == headline(*st, swarm),
{
    let active: bool = is_any_active(st, ids);
    let queued: bool = is_any_queued(st, ids);
    match (turns::find_open_swarm(st), &st.agents.context_mission) {
        (Some(_), Some(mission)) => {
            let stage: Option<String> = find_swarm_stage(swarm, mission.as_str());
            if active || queued {
                if text::opt_str_eq(&stage, "VERIFY") {
                    "Verifying ..."
                } else if text::opt_str_eq(&stage, "SYNTH") {
                    "Synthesizing ..."
                } else if active {
                    "Working ..."
                } else {
                    "Queued ..."
                }
            } else if have_all_spoken(st, assigned_ids, mission.as_str()) {
                "Done"
            } else {
                "Waiting ..."
            }
        },
        _ => if !active && queued {
            "Queued ..."
        } else {
            "Working ..."
        },
    }
}

/// The stage of an agent of the table.
pub open spec fn table_stage(st: AppState, id: Seq<char>) -> Seq<char> {
    let mission: Option<Seq<char>> = if turns::open_swarm(st) is Some {
        text::opt_text(st.agents.context_mission)
    } else {
        None
    };
    let failed: bool = match turns::lane(st, id) {
        Some(agent) => agent.status is Error,
        None => false,
    };
    match turns::turn(st, id) {
        Some(t) => turn_stage(t),
        None => if failed {
            "error"@
        } else if mission is Some && turns::queued_in(st, id, mission->0) {
            "swarm_queued"@
        } else if turns::queued(st, id) {
            "queued"@
        } else if assigned(st).contains(id) {
            if mission is Some && turns::spoke_in(st, id, mission->0) {
                "swarm_done"@
            } else {
                "swarm_pending"@
            }
        } else {
            "pending"@
        },
    }
}

pub fn table_stage_of(st: &AppState, assigned_ids: &Vec<String>, id: &str) -> (r: String)
    requires
        text::texts(assigned_ids@) == assigned(*st),
    ensures
        r@ == table_stage(*st, id@),
{
    if let Some(t) = turns::find_turn(st, id) {
        return match &t.stage {
            Some(s) => s.clone(),
            None => text::copy("starting"),
        };
    }
    if let Some(agent) = turns::find_lane(st, id) {
        if let AgentStatus::Error = agent.status {
            return text::copy("error");
        }
    }
    let mission: Option<&str> = if turns::find_open_swarm(st).is_some() {
        state::as_str(&st.agents.context_mission)
    } else {
        None
    };
    let queued_here: bool = match mission {
        Some(m) => turns::is_queued_in(st, id, m),
        None => false,
    };
    if queued_here {
        return text::copy("swarm_queued");
    }
    if turns::is_queued(st, id) {
        return text::copy("queued");
    }
    if is_among(assigned_ids, id) {
        let spoke: bool = match mission {
            Some(m) => turns::has_spoken_in(st, id, m),
            None => false,
        };
        if spoke {
            return text::copy("swarm_done");
        }
        return text::copy("swarm_pending");
    }
    text::copy("pending")
}

/// Whether an agent in this stage has no times yet.
pub open spec fn no_times(raw: Seq<char>) -> bool {
    raw == "queued"@ || raw == "swarm_queued"@
}

/// Two rows on an agent where there is no room for a table.
pub open spec fn narrow_rows(
    st: AppState,
    id: Seq<char>,
    raw: Seq<char>,
    suppress: bool,
    width: int,
) -> Seq<Row> {
    let (elapsed, heartbeat, output) = times(turns::turn(st, id), suppress);
    seq![
        rows::row(
            fit::padded(
                messages::named(st, id) + " "@ + elapsed + " "@ + heartbeat + " "@ + output,
                width,
            ),
            ThreadRowKind::StatusRow,
        ),
        rows::row(
            fit::padded("↳ "@ + stage_of(st, id, raw), width),
            ThreadRowKind::StatusSubRow,
        ),
    ]
}

pub fn push_narrow_rows(
    out: &mut Vec<ThreadRow>,
    st: &AppState,
    id: &str,
    raw: &str,
    suppress: bool,
    width: usize,
)
    ensures
        rows::rows(final(out)@) == rows::rows(old(out)@) + narrow_rows(
            *st,
            id@,
            raw@,
            suppress,
            width as int,
        ),
{
    let ghost before: Seq<Row> = rows::rows(out@);
    let name: String = messages::name_of(st, id);
    let (elapsed, heartbeat, output): (String, String, String) = times_of(
        turns::find_turn(st, id),
        suppress,
    );
    let line: String = text::cat7(
        name.as_str(),
        " ",
        elapsed.as_str(),
        " ",
        heartbeat.as_str(),
        " ",
        output.as_str(),
    );
    rows::push_row(out, fit::pad_to_width(line.as_str(), width), ThreadRowKind::StatusRow);
    let stage: String = describe_stage(st, id, raw);
    let below: String = text::cat2("↳ ", stage.as_str());
    rows::push_row(out, fit::pad_to_width(below.as_str(), width), ThreadRowKind::StatusSubRow);
    assert(rows::rows(out@) =~= before + narrow_rows(*st, id@, raw@, suppress, width as int));
}

/// The rows on the first `n` agents of the table.
pub open spec fn table_agents(st: AppState, ids: Seq<Seq<char>>, width: int, n: int) -> Seq<Row>
    decreases n,
{
    if n <= 0 {
        Seq::empty()
    } else {
        let raw: Seq<char> = table_stage(st, ids[n - 1]);
        table_agents(st, ids, width, n - 1) + (if name_width(width) < 6 {
            narrow_rows(st, ids[n - 1], raw, no_times(raw), width)
        } else {
            agent_rows(st, ids[n - 1], raw, no_times(raw), width)
        })
    }
}

/// Whose heartbeat stands for the table.
pub open spec fn beating(st: AppState) -> Option<Seq<char>> {
    match first_of(busy_agents(st, true)) {
        Some(id) => Some(id),
        None => match first_of(busy_agents(st, false)) {
            Some(id) => Some(id),
            None => first_of(ordered(st)),
        },
    }
}

/// The table of the agents at work.
pub open spec fn table_rows(
    st: AppState,
    swarm: Option<&SwarmRuntime>,
    pulse_on: bool,
    given: int,
) -> Seq<Row> {
    let width: int = text::max_int(given, 1);
    let ids: Seq<Seq<char>> = ordered(st);
    let working: bool = any_active(st, ids) || any_queued(st, ids);
    if ids.len() == 0 {
        Seq::empty()
    } else {
        seq![
            rows::row(
                stages::beat(st.frame_count, beating(st), pulse_on, working) + " "@ + headline(
                    st,
                    swarm,
                ),
                ThreadRowKind::Breather,
            ),
        ] + (if name_width(width) < 6 {
            Seq::empty()
        } else {
            seq![table_head(width)]
        }) + table_agents(st, ids, width, ids.len() as int) + (match turns::open_swarm(st) {
            Some(m) => footer::footer_rows(st, st.agents.context_mission->0@, working, width),
            None => Seq::empty(),
        })
    }
}

pub fn first_str<'a>(v: &'a Vec<String>) -> (r: Option<&'a str>)
    ensures
        text::opt_str(r) == first_of(text::texts(v@)),
{
    if v.len() > 0 {
        assert(text::texts(v@)[0] == v@[0]@);
        Some(v[0].as_str())
    } else {
        None
    }
}

fn push_table_agents(
    out: &mut Vec<ThreadRow>,
    st: &AppState,
    ids: &Vec<String>,
    assigned_ids: &Vec<String>,
    width: usize,
)
    requires
        text::texts(assigned_ids@) == assigned(*st),
    ensures
        rows::rows(final(out)@) == rows::rows(old(out)@) + table_agents(
            *st,
            text::texts(ids@),
            width as int,
            ids@.len() as int,
        ),
{
    broadcast use rows::group_rows;

    let ghost before: Seq<Row> = rows::rows(out@);
    let ghost all: Seq<Seq<char>> = text::texts(ids@);
    let narrow: bool = text::max_of(text::minus(width, 18), 1) < 6;
    let mut i: usize = 0;
    while i < ids.len()
        invariant
            i <= ids@.len(),
            all == text::texts(ids@),
            text::texts(assigned_ids@) == assigned(*st),
            narrow == (name_width(width as int) < 6),
            rows::rows(out@) == before + table_agents(*st, all, width as int, i as int),
        decreases ids@.len() - i,
    {
        broadcast use rows::group_rows;

        let id: &str = ids[i].as_str();
        assert(all[i as int] == id@);
        let raw: String = table_stage_of(st, assigned_ids, id);
        let suppress: bool = text::str_eq(raw.as_str(), "queued") || text::str_eq(
            raw.as_str(),
            "swarm_queued",
        );
        if narrow {
            push_narrow_rows(out, st, id, raw.as_str(), suppress, width);
        } else {
            push_agent_rows(out, st, id, raw.as_str(), suppress, width);
        }
        i += 1;
    }
}

pub fn breather_rows_for_user_prompt(
    st: &AppState,
    swarm: Option<&SwarmRuntime>,
    pulse_on: bool,
    given: usize,
) -> (r: Vec<ThreadRow>)
    ensures
        rows::rows(r@) == table_rows(*st, swarm, pulse_on, given as int),
{
    broadcast use rows::group_rows;

    let width: usize = text::max_of(given, 1);
    let first: Vec<String> = collect_busy(st, true);
    let others: Vec<String> = collect_busy(st, false);
    let assigned_ids: Vec<String> = collect_assigned(st);
    let ids: Vec<String> = join_new(join_new(collect_assigned(st), &first), &others);
    let ghost all: Seq<Seq<char>> = text::texts(ids@);
    assert(all.len() == ids@.len());
    let mut out: Vec<ThreadRow> = Vec::new();
    if ids.len() == 0 {
        return out;
    }
    let working: bool = is_any_active(st, &ids) || is_any_queued(st, &ids);
    let label: &str = headline_of(st, swarm, &ids, &assigned_ids);
    let who: Option<&str> = match first_str(&first) {
        Some(id) => Some(id),
        None => match first_str(&others) {
            Some(id) => Some(id),
            None => first_str(&ids),
        },
    };
    let beat: &str = stages::ecg_indicator(st.frame_count, who, pulse_on, working);
    rows::push_row(&mut out, text::cat3(beat, " ", label), ThreadRowKind::Breather);
    if text::max_of(text::minus(width, 18), 1) >= 6 {
        push_table_head(&mut out, width);
    }
    push_table_agents(&mut out, st, &ids, &assigned_ids, width);
    if turns::find_open_swarm(st).is_some() {
        if let Some(mission) = &st.agents.context_mission {
            footer::append_swarm_meta_footer_rows(&mut out, st, mission.as_str(), width, working);
        }
    }
    out
}

} // verus!
