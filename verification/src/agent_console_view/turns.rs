//! Which agents are at work and which wait.

use vstd::prelude::*;

use crate::state;
use crate::state::ActiveTurn;
use crate::state::AgentLane;
use crate::state::AppState;
use crate::state::Entry;
use crate::state::Mission;
use crate::state::QueuedTurn;
use crate::text;

verus! {

/// Whether a turn of this agent waits.
pub open spec fn waits(turns: Seq<QueuedTurn>, id: Seq<char>) -> bool {
    exists|i: int| 0 <= i < turns.len() && (#[trigger] turns[i]).agent_id@ == id
}

fn has_waiting(turns: &Vec<QueuedTurn>, id: &str) -> (r: bool)
    ensures
        r == waits(turns@, id@),
{
    let mut i: usize = 0;
    while i < turns.len()
        invariant
            i <= turns@.len(),
            forall|j: int| 0 <= j < i ==> (#[trigger] turns@[j]).agent_id@ != id@,
        decreases turns@.len() - i,
    {
        if text::str_eq(turns[i].agent_id.as_str(), id) {
            return true;
        }
        i += 1;
    }
    false
}

/// Whether a turn of this agent waits in a mission.
pub open spec fn waits_in(turns: Seq<QueuedTurn>, id: Seq<char>, mission: Seq<char>) -> bool {
    exists|i: int|
        0 <= i < turns.len() && (#[trigger] turns[i]).agent_id@ == id && text::opt_text(
            turns[i].mission_id,
        ) == Some(mission)
}

fn has_waiting_in(turns: &Vec<QueuedTurn>, id: &str, mission: &str) -> (r: bool)
    ensures
        r == waits_in(turns@, id@, mission@),
{
    let mut i: usize = 0;
    while i < turns.len()
        invariant
            i <= turns@.len(),
            forall|j: int|
                0 <= j < i ==> !((#[trigger] turns@[j]).agent_id@ == id@ && text::opt_text(
                    turns@[j].mission_id,
                ) == Some(mission@)),
        decreases turns@.len() - i,
    {
        if text::str_eq(turns[i].agent_id.as_str(), id) && text::opt_str_eq(
            &turns[i].mission_id,
            mission,
        ) {
            return true;
        }
        i += 1;
    }
    false
}

/// Whether an agent is at work.
pub open spec fn active(st: AppState, id: Seq<char>) -> bool {
    state::value_of(st.agents.active_turns@, id) is Some
}

pub fn is_active(st: &AppState, id: &str) -> (r: bool)
    ensures
        r == active(*st, id@),
{
    state::lookup(&st.agents.active_turns, id).is_some()
}

/// Whether a turn of an agent waits.
pub open spec fn queued(st: AppState, id: Seq<char>) -> bool {
    waits(st.agents.queued_codex_turns@, id) || waits(st.agents.queued_claude_turns@, id)
}

pub fn is_queued(st: &AppState, id: &str) -> (r: bool)
    ensures
        r == queued(*st, id@),
{
    has_waiting(&st.agents.queued_codex_turns, id) || has_waiting(
        &st.agents.queued_claude_turns,
        id,
    )
}

/// Whether a turn of an agent waits in a mission.
pub open spec fn queued_in(st: AppState, id: Seq<char>, mission: Seq<char>) -> bool {
    waits_in(st.agents.queued_codex_turns@, id, mission) || waits_in(
        st.agents.queued_claude_turns@,
        id,
        mission,
    )
}

pub fn is_queued_in(st: &AppState, id: &str, mission: &str) -> (r: bool)
    ensures
        r == queued_in(*st, id@, mission@),
{
    has_waiting_in(&st.agents.queued_codex_turns, id, mission) || has_waiting_in(
        &st.agents.queued_claude_turns,
        id,
        mission,
    )
}

/// Whether an agent is at work or will be.
pub open spec fn busy(st: AppState, id: Seq<char>) -> bool {
    active(st, id) || queued(st, id)
}

pub fn is_busy(st: &AppState, id: &str) -> (r: bool)
    ensures
        r == busy(*st, id@),
{
    is_active(st, id) || is_queued(st, id)
}

/// The agents among the first `n` entries that are busy with the prompt at `prompt`.
pub open spec fn on_prompt_upto(
    st: AppState,
    entries: Seq<Entry<usize>>,
    prompt: int,
    n: int,
) -> Seq<Seq<char>>
    decreases n,
{
    if n <= 0 {
        Seq::empty()
    } else {
        let before: Seq<Seq<char>> = on_prompt_upto(st, entries, prompt, n - 1);
        if entries[n - 1].value == prompt && busy(st, entries[n - 1].key@) {
            before.push(entries[n - 1].key@)
        } else {
            before
        }
    }
}

/// The agents that are busy with the prompt at `prompt`.
pub open spec fn on_prompt(st: AppState, prompt: int) -> Seq<Seq<char>> {
    let codex: Seq<Entry<usize>> = st.agents.codex_turn_prompt_idx@;
    let claude: Seq<Entry<usize>> = st.agents.claude_turn_prompt_idx@;
    on_prompt_upto(st, codex, prompt, codex.len() as int) + on_prompt_upto(
        st,
        claude,
        prompt,
        claude.len() as int,
    )
}

fn push_on_prompt(out: &mut Vec<String>, st: &AppState, entries: &Vec<Entry<usize>>, prompt: usize)
    ensures
        text::texts(final(out)@) == text::texts(old(out)@) + on_prompt_upto(
            *st,
            entries@,
            prompt as int,
            entries@.len() as int,
        ),
{
    broadcast use text::group_texts;

    let ghost before: Seq<Seq<char>> = text::texts(out@);
    let mut i: usize = 0;
    assert(before + on_prompt_upto(*st, entries@, prompt as int, 0) =~= before);
    while i < entries.len()
        invariant
            i <= entries@.len(),
            text::texts(out@) == before + on_prompt_upto(*st, entries@, prompt as int, i as int),
        decreases entries@.len() - i,
    {
        broadcast use text::group_texts;

        if entries[i].value == prompt && is_busy(st, entries[i].key.as_str()) {
            let ghost so_far: Seq<Seq<char>> = on_prompt_upto(
                *st,
                entries@,
                prompt as int,
                i as int,
            );
            out.push(entries[i].key.clone());
            assert(before + so_far.push(entries@[i as int].key@) =~= (before + so_far).push(
                entries@[i as int].key@,
            ));
        }
        i += 1;
    }
}

/// The agents that are still at work on a prompt.
pub fn agents_on_prompt(st: &AppState, prompt: usize) -> (r: Vec<String>)
    ensures
        text::texts(r@) == on_prompt(*st, prompt as int),
{
    broadcast use text::group_texts;

    let mut out: Vec<String> = Vec::new();
    push_on_prompt(&mut out, st, &st.agents.codex_turn_prompt_idx, prompt);
    push_on_prompt(&mut out, st, &st.agents.claude_turn_prompt_idx, prompt);
    assert(text::texts(out@) =~= on_prompt(*st, prompt as int));
    out
}

/// The first agent of this name from place `i` on.
pub open spec fn lane_from(lanes: Seq<AgentLane>, id: Seq<char>, i: int) -> Option<int>
    decreases lanes.len() - i,
{
    if i < 0 || i >= lanes.len() {
        None
    } else if lanes[i].id@ == id {
        Some(i)
    } else {
        lane_from(lanes, id, i + 1)
    }
}

/// The agent of this name.
pub open spec fn lane(st: AppState, id: Seq<char>) -> Option<AgentLane> {
    match lane_from(st.agents.agents@, id, 0) {
        Some(k) => Some(st.agents.agents@[k]),
        None => None,
    }
}

pub fn find_lane<'a>(st: &'a AppState, id: &str) -> (r: Option<&'a AgentLane>)
    ensures
        match r {
            Some(a) => lane(*st, id@) == Some(*a),
            None => lane(*st, id@) is None,
        },
{
    let lanes: &Vec<AgentLane> = &st.agents.agents;
    let mut i: usize = 0;
    while i < lanes.len()
        invariant
            i <= lanes@.len(),
            lanes@ == st.agents.agents@,
            lane_from(lanes@, id@, 0) == lane_from(lanes@, id@, i as int),
        decreases lanes@.len() - i,
    {
        if text::str_eq(lanes[i].id.as_str(), id) {
            return Some(&lanes[i]);
        }
        i += 1;
    }
    None
}

/// The turn that an agent is at work on.
pub open spec fn turn(st: AppState, id: Seq<char>) -> Option<ActiveTurn> {
    state::value_of(st.agents.active_turns@, id)
}

pub fn find_turn<'a>(st: &'a AppState, id: &str) -> (r: Option<&'a ActiveTurn>)
    ensures
        match r {
            Some(a) => turn(*st, id@) == Some(*a),
            None => turn(*st, id@) is None,
        },
{
    state::lookup(&st.agents.active_turns, id)
}

/// Whether the agent of this name is chosen, or a chat copy of the one that is.
pub open spec fn is_or_copies(st: AppState, id: Seq<char>, chosen: Seq<char>) -> bool {
    id == chosen || st.agents.chat_clones.base(id) == Some(chosen)
}

pub fn is_same_or_copy(st: &AppState, id: &str, chosen: &str) -> (r: bool)
    ensures
        r == is_or_copies(*st, id@, chosen@),
{
    text::str_eq(id, chosen) || (match st.agents.chat_clones.base_of(id) {
        Some(b) => text::str_eq(b, chosen),
        None => false,
    })
}

/// Whether an agent has said something in a mission.
pub open spec fn spoke_in(st: AppState, id: Seq<char>, mission: Seq<char>) -> bool {
    exists|i: int|
        0 <= i < st.agents.messages@.len() && text::opt_text(
            (#[trigger] st.agents.messages@[i]).mission_id,
        ) == Some(mission) && text::opt_text(st.agents.messages@[i].agent_id) == Some(id)
}

pub fn has_spoken_in(st: &AppState, id: &str, mission: &str) -> (r: bool)
    ensures
        r == spoke_in(*st, id@, mission@),
{
    let mut i: usize = 0;
    while i < st.agents.messages.len()
        invariant
            i <= st.agents.messages@.len(),
            forall|j: int|
                0 <= j < i ==> !(text::opt_text((#[trigger] st.agents.messages@[j]).mission_id)
                    == Some(mission@) && text::opt_text(st.agents.messages@[j].agent_id) == Some(
                    id@,
                )),
        decreases st.agents.messages@.len() - i,
    {
        if text::opt_str_eq(&st.agents.messages[i].mission_id, mission) && text::opt_str_eq(
            &st.agents.messages[i].agent_id,
            id,
        ) {
            return true;
        }
        i += 1;
    }
    false
}

/// The mission of the swarm that is open, where there is one.
pub open spec fn open_swarm(st: AppState) -> Option<Mission> {
    match st.agents.context_mission {
        Some(id) => match state::mission_named(st.agents.missions@, id@) {
            Some(k) if st.agents.missions@[k].swarm => Some(st.agents.missions@[k]),
            _ => None,
        },
        None => None,
    }
}

pub fn find_open_swarm<'a>(st: &'a AppState) -> (r: Option<&'a Mission>)
    ensures
        match r {
            Some(m) => open_swarm(*st) == Some(*m),
            None => open_swarm(*st) is None,
        },
{
    match &st.agents.context_mission {
        Some(id) => match state::find_mission(&st.agents.missions, id.as_str()) {
            Some(k) => if st.agents.missions[k].swarm {
                Some(&st.agents.missions[k])
            } else {
                None
            },
            None => None,
        },
        None => None,
    }
}

/// Whether some mission of the name that is open is a swarm.
pub open spec fn swarm_is_open(st: AppState) -> bool {
    match st.agents.context_mission {
        Some(id) => exists|i: int|
            0 <= i < st.agents.missions@.len() && (#[trigger] st.agents.missions@[i]).id@ == id@
                && st.agents.missions@[i].swarm,
        None => false,
    }
}

pub fn is_swarm_open(st: &AppState) -> (r: bool)
    ensures
        r == swarm_is_open(*st),
{
    let id: &String = match &st.agents.context_mission {
        Some(id) => id,
        None => {
            return false;
        },
    };
    let mut i: usize = 0;
    while i < st.agents.missions.len()
        invariant
            i <= st.agents.missions@.len(),
            st.agents.context_mission == Some(*id),
            forall|j: int|
                0 <= j < i ==> !((#[trigger] st.agents.missions@[j]).id@ == id@
                    && st.agents.missions@[j].swarm),
        decreases st.agents.missions@.len() - i,
    {
        if text::str_eq(st.agents.missions[i].id.as_str(), id.as_str())
            && st.agents.missions[i].swarm {
            return true;
        }
        i += 1;
    }
    false
}

} // verus!
