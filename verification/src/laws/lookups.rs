//! What is found under a key or a name.

use vstd::prelude::*;

use crate::agent_console_view::turns;
use crate::state;
use crate::state::AgentLane;
use crate::state::AppState;
use crate::state::Entry;
use crate::state::Mission;

verus! {

proof fn first_value<V>(v: Seq<Entry<V>>, key: Seq<char>, i: int)
    requires
        0 <= i,
    ensures
        match state::value_from(v, key, i) {
            Some(x) => exists|k: int|
                i <= k < v.len() && (#[trigger] v[k]).key@ == key && v[k].value == x && forall|j: int|
                    i <= j < k ==> (#[trigger] v[j]).key@ != key,
            None => forall|k: int| i <= k < v.len() ==> (#[trigger] v[k]).key@ != key,
        },
    decreases v.len() - i,
{
    if i < v.len() && v[i].key@ != key {
        first_value(v, key, i + 1);
        if let Some(x) = state::value_from(v, key, i + 1) {
            let k: int = choose|k: int|
                i + 1 <= k < v.len() && (#[trigger] v[k]).key@ == key && v[k].value == x
                    && forall|j: int| i + 1 <= j < k ==> (#[trigger] v[j]).key@ != key;
            assert(v[k].key@ == key);
        }
    } else if i < v.len() {
        assert(v[i].key@ == key);
    }
}

/// A table gives the value of the first entry with the key; it gives none exactly where no entry
/// has it.
pub proof fn a_key_has_its_first_value<V>(v: Seq<Entry<V>>, key: Seq<char>)
    ensures
        match state::value_of(v, key) {
            Some(x) => exists|k: int|
                0 <= k < v.len() && (#[trigger] v[k]).key@ == key && v[k].value == x && forall|j: int|
                    0 <= j < k ==> (#[trigger] v[j]).key@ != key,
            None => forall|k: int| 0 <= k < v.len() ==> (#[trigger] v[k]).key@ != key,
        },
{
    first_value(v, key, 0);
}

proof fn first_mission(missions: Seq<Mission>, id: Seq<char>, i: int)
    requires
        0 <= i,
    ensures
        match state::mission_from(missions, id, i) {
            Some(k) => i <= k < missions.len() && missions[k].id@ == id && forall|j: int|
                i <= j < k ==> (#[trigger] missions[j]).id@ != id,
            None => forall|k: int| i <= k < missions.len() ==> (#[trigger] missions[k]).id@ != id,
        },
    decreases missions.len() - i,
{
    if i < missions.len() && missions[i].id@ != id {
        first_mission(missions, id, i + 1);
    }
}

/// A mission is found by its identity, and exactly where there is one with that identity.
pub proof fn missions_are_found_by_identity(missions: Seq<Mission>, id: Seq<char>)
    ensures
        match state::mission_named(missions, id) {
            Some(k) => 0 <= k < missions.len() && missions[k].id@ == id && forall|j: int|
                0 <= j < k ==> (#[trigger] missions[j]).id@ != id,
            None => forall|k: int| 0 <= k < missions.len() ==> (#[trigger] missions[k]).id@ != id,
        },
{
    first_mission(missions, id, 0);
}

proof fn first_lane(lanes: Seq<AgentLane>, id: Seq<char>, i: int)
    requires
        0 <= i,
    ensures
        match turns::lane_from(lanes, id, i) {
            Some(k) => i <= k < lanes.len() && lanes[k].id@ == id,
            None => forall|k: int| i <= k < lanes.len() ==> (#[trigger] lanes[k]).id@ != id,
        },
    decreases lanes.len() - i,
{
    if i < lanes.len() && lanes[i].id@ != id {
        first_lane(lanes, id, i + 1);
    }
}

/// An agent is found by its identity, and exactly where there is one with that identity.
pub proof fn agents_are_found_by_identity(st: AppState, id: Seq<char>)
    ensures
        turns::lane(st, id) is Some ==> turns::lane(st, id)->0.id@ == id,
        turns::lane(st, id) is None <==> forall|k: int|
            0 <= k < st.agents.agents@.len() ==> (#[trigger] st.agents.agents@[k]).id@ != id,
{
    first_lane(st.agents.agents@, id, 0);
}

/// An agent is busy exactly where it has a turn, or waits for one in either queue.
pub proof fn busy_agents_work_or_wait(st: AppState, id: Seq<char>)
    ensures
        turns::busy(st, id) <==> {
            ||| exists|k: int|
                0 <= k < st.agents.active_turns@.len() && (
                #[trigger] st.agents.active_turns@[k]).key@ == id
            ||| exists|k: int|
                0 <= k < st.agents.queued_codex_turns@.len() && (
                #[trigger] st.agents.queued_codex_turns@[k]).agent_id@ == id
            ||| exists|k: int|
                0 <= k < st.agents.queued_claude_turns@.len() && (
                #[trigger] st.agents.queued_claude_turns@[k]).agent_id@ == id
        },
{
    a_key_has_its_first_value(st.agents.active_turns@, id);
}

proof fn on_prompt_holds(
    st: AppState,
    entries: Seq<Entry<usize>>,
    prompt: int,
    n: int,
    id: Seq<char>,
)
    requires
        n <= entries.len(),
    ensures
        turns::on_prompt_upto(st, entries, prompt, n).contains(id) <==> turns::busy(st, id)
            && exists|k: int|
            0 <= k < n && (#[trigger] entries[k]).key@ == id && entries[k].value == prompt,
    decreases n,
{
    let all: Seq<Seq<char>> = turns::on_prompt_upto(st, entries, prompt, n);
    if n > 0 {
        on_prompt_holds(st, entries, prompt, n - 1, id);
        let before: Seq<Seq<char>> = turns::on_prompt_upto(st, entries, prompt, n - 1);
        let e: Entry<usize> = entries[n - 1];
        if e.value == prompt && turns::busy(st, e.key@) {
            assert(all == before.push(e.key@));
            if before.contains(id) {
                assert(all[before.index_of(id)] == id);
            }
            if e.key@ == id {
                assert(all[before.len() as int] == id);
            }
            if all.contains(id) {
                let k: int = all.index_of(id);
                if k < before.len() {
                    assert(before[k] == id);
                }
            }
        }
    }
}

/// The agents on a prompt are those that either backend was given this prompt for and that are
/// busy.
pub proof fn agents_on_a_prompt_are_busy_with_it(st: AppState, prompt: int, id: Seq<char>)
    ensures
        turns::on_prompt(st, prompt).contains(id) <==> turns::busy(st, id) && ((exists|k: int|
            0 <= k < st.agents.codex_turn_prompt_idx@.len() && (
            #[trigger] st.agents.codex_turn_prompt_idx@[k]).key@ == id
                && st.agents.codex_turn_prompt_idx@[k].value == prompt) || (exists|k: int|
            0 <= k < st.agents.claude_turn_prompt_idx@.len() && (
            #[trigger] st.agents.claude_turn_prompt_idx@[k]).key@ == id
                && st.agents.claude_turn_prompt_idx@[k].value == prompt)),
{
    let codex: Seq<Entry<usize>> = st.agents.codex_turn_prompt_idx@;
    let claude: Seq<Entry<usize>> = st.agents.claude_turn_prompt_idx@;
    on_prompt_holds(st, codex, prompt, codex.len() as int, id);
    on_prompt_holds(st, claude, prompt, claude.len() as int, id);
    let a: Seq<Seq<char>> = turns::on_prompt_upto(st, codex, prompt, codex.len() as int);
    let b: Seq<Seq<char>> = turns::on_prompt_upto(st, claude, prompt, claude.len() as int);
    let all: Seq<Seq<char>> = turns::on_prompt(st, prompt);
    assert(all == a + b);
    if a.contains(id) {
        assert(all[a.index_of(id)] == id);
    }
    if b.contains(id) {
        assert(all[a.len() + b.index_of(id)] == id);
    }
    if all.contains(id) {
        let k: int = all.index_of(id);
        if k < a.len() {
            assert(a[k] == id);
        } else {
            assert(b[k - a.len()] == id);
        }
    }
}

/// A swarm is open exactly where the chosen mission is one.
pub proof fn the_chosen_mission_opens_its_swarm(st: AppState)
    ensures
        turns::swarm_is_open(st) <==> st.agents.context_mission is Some && exists|i: int|
            0 <= i < st.agents.missions@.len() && (#[trigger] st.agents.missions@[i]).id@
                == st.agents.context_mission->0@ && st.agents.missions@[i].swarm,
        turns::open_swarm(st) is Some ==> turns::open_swarm(st)->0.swarm
            && st.agents.context_mission is Some && turns::open_swarm(st)->0.id@
            == st.agents.context_mission->0@,
{
    if st.agents.context_mission is Some {
        missions_are_found_by_identity(st.agents.missions@, st.agents.context_mission->0@);
    }
}

} // verus!
