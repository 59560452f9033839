//! Where the artifacts of a mission or of a chat come from.

use vstd::prelude::*;

use crate::agent_ops_view::dag;
use crate::agent_ops_view::history;
use crate::agent_ops_view::history::SavedArtifactsRunEntry;
use crate::agent_ops_view::saved_cards;
use crate::agent_ops_view::swarm_details;
use crate::counting;
use crate::state;
use crate::state::AppState;
use crate::state::Entry;
use crate::state::Mission;
use crate::state::PersistedArtifactsRun;
use crate::table_cells;
use crate::text;

verus! {

/// How many messages, replies, changes and findings there are.
pub struct Tally {
    pub messages: nat,
    pub replies: nat,
    pub patches: nat,
    pub evidence: nat,
}

/// The same as machine numbers.
struct Tallied {
    messages: usize,
    replies: usize,
    patches: usize,
    evidence: usize,
}

spec fn tally_of(t: Tallied) -> Tally {
    Tally {
        messages: t.messages as nat,
        replies: t.replies as nat,
        patches: t.patches as nat,
        evidence: t.evidence as nat,
    }
}

pub open spec fn live_mission_message(st: AppState, id: Seq<char>) -> spec_fn(int) -> bool {
    |k: int| text::opt_text(st.agents.messages@[k].mission_id) == Some(id)
}

pub open spec fn live_mission_reply(st: AppState, id: Seq<char>) -> spec_fn(int) -> bool {
    |k: int|
        text::opt_text(st.agents.messages@[k].mission_id) == Some(id)
            && st.agents.messages@[k].agent_id is Some
}

pub open spec fn live_mission_patch(st: AppState, id: Seq<char>) -> spec_fn(int) -> bool {
    |k: int| text::opt_text(st.agents.patches@[k].mission_id) == Some(id)
}

pub open spec fn live_mission_evidence(st: AppState, id: Seq<char>) -> spec_fn(int) -> bool {
    |k: int| text::opt_text(st.agents.evidence@[k].mission_id) == Some(id)
}

/// What the running workbench holds of a mission.
pub open spec fn live_mission(st: AppState, id: Seq<char>) -> Tally {
    Tally {
        messages: counting::counted(
            st.agents.messages@.len() as int,
            live_mission_message(st, id),
        ),
        replies: counting::counted(st.agents.messages@.len() as int, live_mission_reply(st, id)),
        patches: counting::counted(st.agents.patches@.len() as int, live_mission_patch(st, id)),
        evidence: counting::counted(
            st.agents.evidence@.len() as int,
            live_mission_evidence(st, id),
        ),
    }
}

pub open spec fn live_chat_message(st: AppState, id: Seq<char>) -> spec_fn(int) -> bool {
    |k: int|
        st.agents.messages@[k].mission_id is None && (st.agents.messages@[k].agent_id is None
            || text::opt_text(st.agents.messages@[k].agent_id) == Some(id))
}

pub open spec fn live_chat_reply(st: AppState, id: Seq<char>) -> spec_fn(int) -> bool {
    |k: int|
        st.agents.messages@[k].mission_id is None && text::opt_text(
            st.agents.messages@[k].agent_id,
        ) == Some(id)
}

pub open spec fn live_chat_patch(st: AppState, id: Seq<char>) -> spec_fn(int) -> bool {
    |k: int| st.agents.patches@[k].mission_id is None && st.agents.patches@[k].agent_id@ == id
}

pub open spec fn live_chat_evidence(st: AppState, id: Seq<char>) -> spec_fn(int) -> bool {
    |k: int|
        st.agents.evidence@[k].mission_id is None && text::opt_text(
            st.agents.evidence@[k].agent_id,
        ) == Some(id)
}

/// What the running workbench holds of the chat with an agent.
pub open spec fn live_chat(st: AppState, id: Seq<char>) -> Tally {
    Tally {
        messages: counting::counted(st.agents.messages@.len() as int, live_chat_message(st, id)),
        replies: counting::counted(st.agents.messages@.len() as int, live_chat_reply(st, id)),
        patches: counting::counted(st.agents.patches@.len() as int, live_chat_patch(st, id)),
        evidence: counting::counted(st.agents.evidence@.len() as int, live_chat_evidence(st, id)),
    }
}

/// What a saved run holds of a mission.
pub open spec fn saved_mission(run: PersistedArtifactsRun, id: Seq<char>) -> Tally {
    let counts: (nat, nat, nat) = history::mission_counts(run, id);
    Tally {
        messages: counts.0,
        replies: counting::counted(
            run.messages@.len() as int,
            saved_cards::told(run, history::mission_message(run, id)),
        ),
        patches: counts.1,
        evidence: counts.2,
    }
}

/// What a saved run holds of the chat with an agent.
pub open spec fn saved_chat(run: PersistedArtifactsRun, id: Seq<char>) -> Tally {
    let counts: (nat, nat, nat) = history::ad_hoc_counts(run, id);
    Tally {
        messages: counts.0,
        replies: counting::counted(
            run.messages@.len() as int,
            saved_cards::told(run, history::ad_hoc_message(run, id)),
        ),
        patches: counts.1,
        evidence: counts.2,
    }
}

fn count_live_mission(st: &AppState, id: &str) -> (r: Tallied)
    ensures
        tally_of(r) == live_mission(*st, id@),
{
    let mut t: Tallied = Tallied { messages: 0, replies: 0, patches: 0, evidence: 0 };
    let mut i: usize = 0;
    while i < st.agents.messages.len()
        invariant
            i <= st.agents.messages@.len(),
            t.messages <= i,
            t.replies <= i,
            t.patches == 0,
            t.evidence == 0,
            t.messages == counting::counted(i as int, live_mission_message(*st, id@)),
            t.replies == counting::counted(i as int, live_mission_reply(*st, id@)),
        decreases st.agents.messages@.len() - i,
    {
        if text::opt_str_eq(&st.agents.messages[i].mission_id, id) {
            t.messages = t.messages + 1;
            if st.agents.messages[i].agent_id.is_some() {
                t.replies = t.replies + 1;
            }
        }
        i += 1;
    }
    let mut j: usize = 0;
    let mut patches: usize = 0;
    while j < st.agents.patches.len()
        invariant
            j <= st.agents.patches@.len(),
            patches <= j,
            patches == counting::counted(j as int, live_mission_patch(*st, id@)),
        decreases st.agents.patches@.len() - j,
    {
        if text::opt_str_eq(&st.agents.patches[j].mission_id, id) {
            patches += 1;
        }
        j += 1;
    }
    let mut k: usize = 0;
    let mut evidence: usize = 0;
    while k < st.agents.evidence.len()
        invariant
            k <= st.agents.evidence@.len(),
            evidence <= k,
            evidence == counting::counted(k as int, live_mission_evidence(*st, id@)),
        decreases st.agents.evidence@.len() - k,
    {
        if text::opt_str_eq(&st.agents.evidence[k].mission_id, id) {
            evidence += 1;
        }
        k += 1;
    }
    Tallied { messages: t.messages, replies: t.replies, patches, evidence }
}

fn count_live_chat(st: &AppState, id: &str) -> (r: Tallied)
    ensures
        tally_of(r) == live_chat(*st, id@),
{
    let mut messages: usize = 0;
    let mut replies: usize = 0;
    let mut i: usize = 0;
    while i < st.agents.messages.len()
        invariant
            i <= st.agents.messages@.len(),
            messages <= i,
            replies <= i,
            messages == counting::counted(i as int, live_chat_message(*st, id@)),
            replies == counting::counted(i as int, live_chat_reply(*st, id@)),
        decreases st.agents.messages@.len() - i,
    {
        if st.agents.messages[i].mission_id.is_none() {
            if st.agents.messages[i].agent_id.is_none() {
                messages += 1;
            } else if text::opt_str_eq(&st.agents.messages[i].agent_id, id) {
                messages += 1;
                replies += 1;
            }
        }
        i += 1;
    }
    let mut j: usize = 0;
    let mut patches: usize = 0;
    while j < st.agents.patches.len()
        invariant
            j <= st.agents.patches@.len(),
            patches <= j,
            patches == counting::counted(j as int, live_chat_patch(*st, id@)),
        decreases st.agents.patches@.len() - j,
    {
        if st.agents.patches[j].mission_id.is_none() && text::str_eq(
            st.agents.patches[j].agent_id.as_str(),
            id,
        ) {
            patches += 1;
        }
        j += 1;
    }
    let mut k: usize = 0;
    let mut evidence: usize = 0;
    while k < st.agents.evidence.len()
        invariant
            k <= st.agents.evidence@.len(),
            evidence <= k,
            evidence == counting::counted(k as int, live_chat_evidence(*st, id@)),
        decreases st.agents.evidence@.len() - k,
    {
        if st.agents.evidence[k].mission_id.is_none() && text::opt_str_eq(
            &st.agents.evidence[k].agent_id,
            id,
        ) {
            evidence += 1;
        }
        k += 1;
    }
    Tallied { messages, replies, patches, evidence }
}

fn count_saved_mission(run: &PersistedArtifactsRun, id: &str) -> (r: Tallied)
    ensures
        tally_of(r) == saved_mission(*run, id@),
{
    let counts: (usize, usize, usize) = history::mission_run_counts(run, id);
    let ghost tells = saved_cards::told(*run, history::mission_message(*run, id@));
    let mut replies: usize = 0;
    let mut i: usize = 0;
    while i < run.messages.len()
        invariant
            i <= run.messages@.len(),
            replies <= i,
            tells == saved_cards::told(*run, history::mission_message(*run, id@)),
            replies == counting::counted(i as int, tells),
        decreases run.messages@.len() - i,
    {
        if text::opt_str_eq(&run.messages[i].mission_id, id) && run.messages[i].agent_id.is_some() {
            replies += 1;
        }
        i += 1;
    }
    Tallied { messages: counts.0, replies, patches: counts.1, evidence: counts.2 }
}

fn count_saved_chat(run: &PersistedArtifactsRun, id: &str) -> (r: Tallied)
    ensures
        tally_of(r) == saved_chat(*run, id@),
{
    let counts: (usize, usize, usize) = history::ad_hoc_run_counts(run, id);
    let ghost tells = saved_cards::told(*run, history::ad_hoc_message(*run, id@));
    let mut replies: usize = 0;
    let mut i: usize = 0;
    while i < run.messages.len()
        invariant
            i <= run.messages@.len(),
            replies <= i,
            tells == saved_cards::told(*run, history::ad_hoc_message(*run, id@)),
            replies == counting::counted(i as int, tells),
        decreases run.messages@.len() - i,
    {
        if run.messages[i].mission_id.is_none() && text::opt_str_eq(
            &run.messages[i].agent_id,
            id,
        ) {
            replies += 1;
        }
        i += 1;
    }
    Tallied { messages: counts.0, replies, patches: counts.1, evidence: counts.2 }
}

/// Whether a tally holds messages, changes or findings.
pub open spec fn some_data(t: Tally) -> bool {
    t.messages > 0 || t.patches > 0 || t.evidence > 0
}

pub open spec fn no_data() -> Tally {
    Tally { messages: 0, replies: 0, patches: 0, evidence: 0 }
}

/// The selected archived run, where it holds something of the context.
pub open spec fn selected_with_data(
    st: AppState,
    tally: spec_fn(PersistedArtifactsRun) -> Tally,
) -> Option<int> {
    match history::selected_archived(st) {
        Some(k) => if some_data(tally(history::run_at(st, k))) {
            Some(k)
        } else {
            None
        },
        None => None,
    }
}

pub open spec fn mission_tally(id: Seq<char>) -> spec_fn(PersistedArtifactsRun) -> Tally {
    |run: PersistedArtifactsRun| saved_mission(run, id)
}

pub open spec fn chat_tally(id: Seq<char>) -> spec_fn(PersistedArtifactsRun) -> Tally {
    |run: PersistedArtifactsRun| saved_chat(run, id)
}

/// The latest saved run.
pub open spec fn latest_run(st: AppState) -> Option<PersistedArtifactsRun> {
    match st.saved.current {
        Some(c) => Some(c.run),
        None => None,
    }
}

/// Whether the latest saved run stands in for an empty thread.
pub open spec fn stands_in(selected: Option<int>, live: Tally) -> bool {
    selected is None && !some_data(live)
}

/// What is counted: the selected archived run, the running thread, or the latest saved run where
/// the thread is empty.
pub open spec fn shown_tally(
    st: AppState,
    live: Tally,
    tally: spec_fn(PersistedArtifactsRun) -> Tally,
) -> Tally {
    let selected: Option<int> = selected_with_data(st, tally);
    match selected {
        Some(k) => tally(history::run_at(st, k)),
        None => if stands_in(selected, live) {
            match latest_run(st) {
                Some(run) => tally(run),
                None => no_data(),
            }
        } else {
            live
        },
    }
}

/// The text under `outer` for the agent; the first one there where it has none.
pub open spec fn of_agent_or_first(
    v: Seq<Entry<Vec<Entry<String>>>>,
    outer: Seq<char>,
    agent: Option<Seq<char>>,
) -> Option<Seq<char>> {
    match state::value_of(v, outer) {
        Some(m) => own_or_first(m@, agent),
        None => None,
    }
}

pub open spec fn own_or_first(m: Seq<Entry<String>>, agent: Option<Seq<char>>) -> Option<Seq<char>> {
    let own: Option<String> = match agent {
        Some(a) => state::value_of(m, a),
        None => None,
    };
    if own is Some {
        text::opt_text(own)
    } else if m.len() > 0 {
        Some(m[0].value@)
    } else {
        None
    }
}

fn own_or_first_of(m: &Vec<Entry<String>>, agent: &Option<String>) -> (r: Option<String>)
    ensures
        text::opt_text(r) == own_or_first(m@, text::opt_text(*agent)),
{
    if let Some(a) = agent {
        if let Some(s) = state::lookup(m, a.as_str()) {
            return Some(s.clone());
        }
    }
    if m.len() > 0 {
        Some(m[0].value.clone())
    } else {
        None
    }
}

fn find_of_agent(v: &Vec<Entry<Vec<Entry<String>>>>, outer: &str, agent: &Option<String>) -> (r:
    Option<String>)
    ensures
        text::opt_text(r) == of_agent_or_first(v@, outer@, text::opt_text(*agent)),
{
    match state::lookup(v, outer) {
        Some(m) => own_or_first_of(m, agent),
        None => None,
    }
}

/// The thread that a saved run names.
pub open spec fn run_thread(run: PersistedArtifactsRun, agent: Option<Seq<char>>) -> Option<Seq<char>> {
    let listed: Option<Seq<char>> = match run.codex_thread_ids {
        Some(m) => own_or_first(m@, agent),
        None => None,
    };
    if listed is Some {
        listed
    } else {
        text::opt_text(run.codex_thread_id)
    }
}

fn run_thread_of(run: &PersistedArtifactsRun, agent: &Option<String>) -> (r: Option<String>)
    ensures
        text::opt_text(r) == run_thread(*run, text::opt_text(*agent)),
{
    if let Some(m) = &run.codex_thread_ids {
        if let Some(s) = own_or_first_of(m, agent) {
            return Some(s);
        }
    }
    state::clone_opt(&run.codex_thread_id)
}

/// The thread of a mission: the running one, or the one that the run on show names.
pub open spec fn mission_thread_id(st: AppState, id: Seq<char>) -> Option<Seq<char>> {
    let agent: Option<Seq<char>> = text::opt_text(st.agents.context_agent);
    let live: Option<Seq<char>> = of_agent_or_first(
        st.agents.codex_mission_thread_ids@,
        id,
        agent,
    );
    if live is Some {
        live
    } else {
        match selected_with_data(st, mission_tally(id)) {
            Some(k) => run_thread(history::run_at(st, k), agent),
            None => match latest_run(st) {
                Some(run) => run_thread(run, agent),
                None => None,
            },
        }
    }
}

/// The name of the run on show.
pub open spec fn source_label(st: AppState, selected: Option<int>) -> Seq<char> {
    match selected {
        Some(k) => history::entries(st)[k].label,
        None => "current / latest saved run"@,
    }
}

pub open spec fn saved_run_count(st: AppState) -> nat {
    (history::entries(st).len() - 1) as nat
}

/// An optional text behind a label.
pub open spec fn opt_detail(label: Seq<char>, value: Option<Seq<char>>, width: int) -> Seq<
    Seq<char>,
> {
    match value {
        Some(s) => swarm_details::detail(label, s, width),
        None => Seq::empty(),
    }
}

fn push_opt(out: &mut Vec<String>, label: &str, value: &Option<String>, width: usize)
    ensures
        text::texts(final(out)@) == text::texts(old(out)@) + opt_detail(
            label@,
            text::opt_text(*value),
            width as int,
        ),
{
    broadcast use text::group_line_lists;

    if let Some(s) = value {
        swarm_details::push_wrapped_detail(out, label, s.as_str(), width);
    }
}

pub open spec fn mission_note(selected: bool, swarm: bool, saved: bool) -> Seq<char> {
    if selected {
        "Showing an archived saved run from disk. Press R in ARTIFACTS to switch back to current/latest."@
    } else if swarm {
        "Showing mission provenance fallback because no live swarm artifact view was available."@
    } else if saved {
        "Showing saved single-agent mission provenance from disk because the live thread is empty."@
    } else {
        "Showing single-agent mission provenance from the saved run and thread."@
    }
}

fn mission_note_of(selected: bool, swarm: bool, saved: bool) -> (r: &'static str)
    ensures
        r@ == mission_note(selected, swarm, saved),
{
    if selected {
        "Showing an archived saved run from disk. Press R in ARTIFACTS to switch back to current/latest."
    } else if swarm {
        "Showing mission provenance fallback because no live swarm artifact view was available."
    } else if saved {
        "Showing saved single-agent mission provenance from disk because the live thread is empty."
    } else {
        "Showing single-agent mission provenance from the saved run and thread."
    }
}

/// The blocks on a mission.
pub open spec fn mission_blocks(st: AppState, mission: Mission, width: int) -> Seq<Seq<char>> {
    let id: Seq<char> = mission.id@;
    let tally: Tally = shown_tally(st, live_mission(st, id), mission_tally(id));
    let selected: Option<int> = selected_with_data(st, mission_tally(id));
    dag::block(
        seq!["Mission"@, "Mode"@, "Phase"@, "Status"@],
        seq![
            mission.id@,
            if mission.swarm {
                "swarm"@
            } else {
                "single-agent"@
            },
            mission.phase_label@,
            mission.status@,
        ],
        width,
    ) + dag::block(
        seq!["Agents"@, "Msgs"@, "Replies"@, "Patches"@, "Evidence"@],
        seq![
            text::decimal(mission.assigned_agents@.len()),
            text::decimal(tally.messages),
            text::decimal(tally.replies),
            text::decimal(tally.patches),
            text::decimal(tally.evidence),
        ],
        width,
    ) + dag::block(
        seq!["SavedRuns"@, "Source"@],
        seq![text::decimal(saved_run_count(st)), source_label(st, selected)],
        width,
    )
}

/// The lines behind the blocks.
pub open spec fn mission_tail(st: AppState, mission: Mission, width: int) -> Seq<Seq<char>> {
    let id: Seq<char> = mission.id@;
    let selected: Option<int> = selected_with_data(st, mission_tally(id));
    let root: Seq<char> = ".nit/agents/runs/"@ + id;
    swarm_details::detail("root"@, root + "/"@, width) + swarm_details::detail(
        "run"@,
        root + "/run.json"@,
        width,
    ) + swarm_details::detail("thread"@, root + "/thread.md"@, width) + opt_detail(
        "claude_session"@,
        of_agent_or_first(
            st.agents.claude_mission_session_ids@,
            id,
            text::opt_text(st.agents.context_agent),
        ),
        width,
    ) + opt_detail("codex_thread"@, mission_thread_id(st, id), width) + swarm_details::names_detail(
        "assigned"@,
        mission.assigned_agents@,
        width,
    ) + swarm_details::detail(
        "note"@,
        mission_note(
            selected is Some,
            mission.swarm,
            stands_in(selected, live_mission(st, id)),
        ),
        width,
    ) + swarm_details::detail("history"@, "Press R to browse saved runs."@, width)
}

/// The lines on a mission.
pub open spec fn mission_provenance(st: AppState, id: Seq<char>, width: int) -> Seq<Seq<char>> {
    match state::mission_named(st.agents.missions@, id) {
        None => seq![" Mission "@ + id + " not found."@],
        Some(k) => mission_blocks(st, st.agents.missions@[k], width) + mission_tail(
            st,
            st.agents.missions@[k],
            width,
        ),
    }
}

/// What is on show of a context.
struct OnShow<'a> {
    run: Option<&'a PersistedArtifactsRun>,
    label: String,
    tally: Tallied,
    saved: bool,
}

spec fn shows(
    o: OnShow,
    st: AppState,
    live: Tally,
    tally: spec_fn(PersistedArtifactsRun) -> Tally,
) -> bool {
    let selected: Option<int> = selected_with_data(st, tally);
    &&& match o.run {
        Some(run) => selected matches Some(k) && *run == history::run_at(st, k),
        None => selected is None,
    }
    &&& o.label@ == source_label(st, selected)
    &&& tally_of(o.tally) == shown_tally(st, live, tally)
    &&& o.saved == stands_in(selected, live)
}

fn mission_on_show<'a>(st: &'a AppState, id: &str) -> (r: OnShow<'a>)
    ensures
        shows(r, *st, live_mission(*st, id@), mission_tally(id@)),
{
    let live: Tallied = count_live_mission(st, id);
    if let Some(er) = history::selected_archived_run_for_current_context(st) {
        let t: Tallied = count_saved_mission(er.1, id);
        if t.messages > 0 || t.patches > 0 || t.evidence > 0 {
            return OnShow { run: Some(er.1), label: er.0.label, tally: t, saved: false };
        }
    }
    let label: String = text::copy("current / latest saved run");
    if live.messages > 0 || live.patches > 0 || live.evidence > 0 {
        return OnShow { run: None, label, tally: live, saved: false };
    }
    match &st.saved.current {
        Some(c) => OnShow {
            run: None,
            label,
            tally: count_saved_mission(&c.run, id),
            saved: true,
        },
        None => OnShow {
            run: None,
            label,
            tally: Tallied { messages: 0, replies: 0, patches: 0, evidence: 0 },
            saved: true,
        },
    }
}

fn chat_on_show<'a>(st: &'a AppState, id: &str) -> (r: OnShow<'a>)
    ensures
        shows(r, *st, live_chat(*st, id@), chat_tally(id@)),
{
    let live: Tallied = count_live_chat(st, id);
    if let Some(er) = history::selected_archived_run_for_current_context(st) {
        let t: Tallied = count_saved_chat(er.1, id);
        if t.messages > 0 || t.patches > 0 || t.evidence > 0 {
            return OnShow { run: Some(er.1), label: er.0.label, tally: t, saved: false };
        }
    }
    let label: String = text::copy("current / latest saved run");
    if live.messages > 0 || live.patches > 0 || live.evidence > 0 {
        return OnShow { run: None, label, tally: live, saved: false };
    }
    match &st.saved.current {
        Some(c) => OnShow { run: None, label, tally: count_saved_chat(&c.run, id), saved: true },
        None => OnShow {
            run: None,
            label,
            tally: Tallied { messages: 0, replies: 0, patches: 0, evidence: 0 },
            saved: true,
        },
    }
}

fn saved_runs(st: &AppState) -> (r: usize)
    ensures
        r == saved_run_count(*st),
{
    let all: Vec<SavedArtifactsRunEntry> = history::artifacts_history_entries(st);
    assert(history::views(all@).len() == all@.len());
    all.len() - 1
}

fn push_mission_blocks(out: &mut Vec<String>, st: &AppState, mission: &Mission, width: usize)
    ensures
        text::texts(final(out)@) == text::texts(old(out)@) + mission_blocks(
            *st,
            *mission,
            width as int,
        ),
{
    broadcast use text::group_line_lists;

    let shown: OnShow = mission_on_show(st, mission.id.as_str());
    let mode: &str = if mission.swarm {
        "swarm"
    } else {
        "single-agent"
    };
    let labels1: Vec<&str> = vec!["Mission", "Mode", "Phase", "Status"];
    let values1: Vec<String> = vec![
        mission.id.clone(),
        text::copy(mode),
        mission.phase_label.clone(),
        mission.status.clone(),
    ];
    assert(table_cells::strs(labels1@) =~= seq!["Mission"@, "Mode"@, "Phase"@, "Status"@]);
    assert(text::texts(values1@) =~= seq![mission.id@, mode@, mission.phase_label@, mission.status@]);
    dag::push_block(out, &labels1, &values1, width);
    let labels2: Vec<&str> = vec!["Agents", "Msgs", "Replies", "Patches", "Evidence"];
    let values2: Vec<String> = vec![
        text::decimal_usize(mission.assigned_agents.len()),
        text::decimal_usize(shown.tally.messages),
        text::decimal_usize(shown.tally.replies),
        text::decimal_usize(shown.tally.patches),
        text::decimal_usize(shown.tally.evidence),
    ];
    let ghost tally: Tally = tally_of(shown.tally);
    assert(table_cells::strs(labels2@) =~= seq!["Agents"@, "Msgs"@, "Replies"@, "Patches"@, "Evidence"@]);
    assert(text::texts(values2@) =~= seq![
                text::decimal(mission.assigned_agents@.len()),
                text::decimal(tally.messages),
                text::decimal(tally.replies),
                text::decimal(tally.patches),
                text::decimal(tally.evidence),
            ]);
    dag::push_block(out, &labels2, &values2, width);
    let ghost label: Seq<char> = shown.label@;
    let labels3: Vec<&str> = vec!["SavedRuns", "Source"];
    let values3: Vec<String> = vec![text::decimal_usize(saved_runs(st)), shown.label];
    assert(table_cells::strs(labels3@) =~= seq!["SavedRuns"@, "Source"@]);
    assert(text::texts(values3@) =~= seq![text::decimal(saved_run_count(*st)), label]);
    dag::push_block(out, &labels3, &values3, width);
}

fn push_mission_tail(out: &mut Vec<String>, st: &AppState, mission: &Mission, width: usize)
    ensures
        text::texts(final(out)@) == text::texts(old(out)@) + mission_tail(
            *st,
            *mission,
            width as int,
        ),
{
    broadcast use text::group_line_lists;

    let id: &str = mission.id.as_str();
    let shown: OnShow = mission_on_show(st, id);
    let agent: &Option<String> = &st.agents.context_agent;
    let root: String = text::cat2(".nit/agents/runs/", id);
    swarm_details::push_wrapped_detail(
        out,
        "root",
        text::cat2(root.as_str(), "/").as_str(),
        width,
    );
    swarm_details::push_wrapped_detail(
        out,
        "run",
        text::cat2(root.as_str(), "/run.json").as_str(),
        width,
    );
    swarm_details::push_wrapped_detail(
        out,
        "thread",
        text::cat2(root.as_str(), "/thread.md").as_str(),
        width,
    );
    let session: Option<String> = find_of_agent(
        &st.agents.claude_mission_session_ids,
        id,
        agent,
    );
    push_opt(out, "claude_session", &session, width);
    let live: Option<String> = find_of_agent(&st.agents.codex_mission_thread_ids, id, agent);
    let thread: Option<String> = if live.is_some() {
        live
    } else {
        match shown.run {
            Some(run) => run_thread_of(run, agent),
            None => match &st.saved.current {
                Some(c) => run_thread_of(&c.run, agent),
                None => None,
            },
        }
    };
    push_opt(out, "codex_thread", &thread, width);
    swarm_details::push_names(out, "assigned", &mission.assigned_agents, width);
    let note: &str = mission_note_of(shown.run.is_some(), mission.swarm, shown.saved);
    swarm_details::push_wrapped_detail(out, "note", note, width);
    swarm_details::push_wrapped_detail(out, "history", "Press R to browse saved runs.", width);
}

pub fn append_mission_provenance_lines(
    out: &mut Vec<String>,
    st: &AppState,
    id: &str,
    width: usize,
)
    ensures
        text::texts(final(out)@) == text::texts(old(out)@) + mission_provenance(
            *st,
            id@,
            width as int,
        ),
{
    broadcast use text::group_line_lists;

    match state::find_mission(&st.agents.missions, id) {
        None => {
            let ghost before: Seq<Seq<char>> = text::texts(out@);
            let line: String = text::cat3(" Mission ", id, " not found.");
            proof {
                text::texts_push(out@, line);
            }
            out.push(line);
            assert(text::texts(out@) =~= before + seq![line@]);
        },
        Some(k) => {
            push_mission_blocks(out, st, &st.agents.missions[k], width);
            push_mission_tail(out, st, &st.agents.missions[k], width);
        },
    }
}

/// Whether a thread of the agent is known.
pub open spec fn chat_thread_present(st: AppState, id: Seq<char>) -> bool {
    ||| state::value_of(st.agents.codex_thread_ids@, id) is Some
    ||| state::value_of(st.agents.claude_session_ids@, id) is Some
    ||| (selected_with_data(st, chat_tally(id)) matches Some(k) && history::run_at(
        st,
        k,
    ).codex_thread_id is Some)
    ||| (latest_run(st) matches Some(run) && run.codex_thread_id is Some)
}

/// The thread of the agent: the running one, or the one that a saved run names.
pub open spec fn chat_thread_id(st: AppState, id: Seq<char>) -> Option<Seq<char>> {
    let live: Option<String> = state::value_of(st.agents.codex_thread_ids@, id);
    let archived: Option<String> = match selected_with_data(st, chat_tally(id)) {
        Some(k) => history::run_at(st, k).codex_thread_id,
        None => None,
    };
    if live is Some {
        text::opt_text(live)
    } else if archived is Some {
        text::opt_text(archived)
    } else {
        match latest_run(st) {
            Some(run) => text::opt_text(run.codex_thread_id),
            None => None,
        }
    }
}

pub open spec fn chat_note(selected: bool, saved: bool) -> Seq<char> {
    if selected {
        "Showing an archived ad-hoc saved run from disk. Press R in ARTIFACTS to switch back to current/latest."@
    } else if saved {
        "No mission is selected. Showing saved ad-hoc artifacts from disk because the live thread is empty."@
    } else {
        "No mission is selected. This view is built from the live ad-hoc thread for the selected agent. Select a mission in MISSIONS to see mission artifacts."@
    }
}

fn chat_note_of(selected: bool, saved: bool) -> (r: &'static str)
    ensures
        r@ == chat_note(selected, saved),
{
    if selected {
        "Showing an archived ad-hoc saved run from disk. Press R in ARTIFACTS to switch back to current/latest."
    } else if saved {
        "No mission is selected. Showing saved ad-hoc artifacts from disk because the live thread is empty."
    } else {
        "No mission is selected. This view is built from the live ad-hoc thread for the selected agent. Select a mission in MISSIONS to see mission artifacts."
    }
}

/// The blocks on the chat with an agent.
pub open spec fn chat_blocks(st: AppState, id: Seq<char>, width: int) -> Seq<Seq<char>> {
    let tally: Tally = shown_tally(st, live_chat(st, id), chat_tally(id));
    let selected: Option<int> = selected_with_data(st, chat_tally(id));
    dag::block(seq!["Agent"@, "Context"@], seq![id, "ad-hoc"@], width) + dag::block(
        seq!["Msgs"@, "Replies"@, "Patches"@, "Thread"@],
        seq![
            text::decimal(tally.messages),
            text::decimal(tally.replies),
            text::decimal(tally.patches),
            dag::yes_no(chat_thread_present(st, id)),
        ],
        width,
    ) + dag::block(
        seq!["SavedRuns"@, "Source"@],
        seq![text::decimal(saved_run_count(st)), source_label(st, selected)],
        width,
    )
}

/// The lines behind the blocks.
pub open spec fn chat_tail(st: AppState, id: Seq<char>, width: int) -> Seq<Seq<char>> {
    let selected: Option<int> = selected_with_data(st, chat_tally(id));
    let root: Seq<char> = history::ad_hoc_root(id);
    swarm_details::detail("root"@, root, width) + swarm_details::detail(
        "run"@,
        root + "run.json"@,
        width,
    ) + swarm_details::detail("thread"@, root + "thread.md"@, width) + swarm_details::detail(
        "note"@,
        chat_note(selected is Some, stands_in(selected, live_chat(st, id))),
        width,
    ) + swarm_details::detail("history"@, "Press R to browse saved runs."@, width) + opt_detail(
        "claude_session"@,
        text::opt_text(state::value_of(st.agents.claude_session_ids@, id)),
        width,
    ) + opt_detail("codex_thread"@, chat_thread_id(st, id), width)
}

/// The lines on the chat with an agent.
pub open spec fn chat_provenance(st: AppState, id: Seq<char>, width: int) -> Seq<Seq<char>> {
    chat_blocks(st, id, width) + chat_tail(st, id, width)
}

fn lookup_copy(v: &Vec<Entry<String>>, key: &str) -> (r: Option<String>)
    ensures
        r == state::value_of(v@, key@),
{
    match state::lookup(v, key) {
        Some(s) => Some(s.clone()),
        None => None,
    }
}

fn push_chat_blocks(out: &mut Vec<String>, st: &AppState, id: &str, width: usize)
    ensures
        text::texts(final(out)@) == text::texts(old(out)@) + chat_blocks(*st, id@, width as int),
{
    broadcast use text::group_line_lists;

    let shown: OnShow = chat_on_show(st, id);
    let labels1: Vec<&str> = vec!["Agent", "Context"];
    let values1: Vec<String> = vec![text::copy(id), text::copy("ad-hoc")];
    assert(table_cells::strs(labels1@) =~= seq!["Agent"@, "Context"@]);
    assert(text::texts(values1@) =~= seq![id@, "ad-hoc"@]);
    dag::push_block(out, &labels1, &values1, width);
    let archived: bool = match shown.run {
        Some(run) => run.codex_thread_id.is_some(),
        None => false,
    };
    let latest: bool = match &st.saved.current {
        Some(c) => c.run.codex_thread_id.is_some(),
        None => false,
    };
    let present: bool = state::lookup(&st.agents.codex_thread_ids, id).is_some() || state::lookup(
        &st.agents.claude_session_ids,
        id,
    ).is_some() || archived || latest;
    let labels2: Vec<&str> = vec!["Msgs", "Replies", "Patches", "Thread"];
    let values2: Vec<String> = vec![
        text::decimal_usize(shown.tally.messages),
        text::decimal_usize(shown.tally.replies),
        text::decimal_usize(shown.tally.patches),
        text::copy(dag::yes_or_no(present)),
    ];
    let ghost tally: Tally = tally_of(shown.tally);
    assert(table_cells::strs(labels2@) =~= seq!["Msgs"@, "Replies"@, "Patches"@, "Thread"@]);
    assert(text::texts(values2@) =~= seq![
                text::decimal(tally.messages),
                text::decimal(tally.replies),
                text::decimal(tally.patches),
                dag::yes_no(present),
            ]);
    dag::push_block(out, &labels2, &values2, width);
    let ghost label: Seq<char> = shown.label@;
    let labels3: Vec<&str> = vec!["SavedRuns", "Source"];
    let values3: Vec<String> = vec![text::decimal_usize(saved_runs(st)), shown.label];
    assert(table_cells::strs(labels3@) =~= seq!["SavedRuns"@, "Source"@]);
    assert(text::texts(values3@) =~= seq![text::decimal(saved_run_count(*st)), label]);
    dag::push_block(out, &labels3, &values3, width);
}

fn push_chat_tail(out: &mut Vec<String>, st: &AppState, id: &str, width: usize)
    ensures
        text::texts(final(out)@) == text::texts(old(out)@) + chat_tail(*st, id@, width as int),
{
    broadcast use text::group_line_lists;

    let shown: OnShow = chat_on_show(st, id);
    let root: String = history::persisted_ad_hoc_root(id);
    swarm_details::push_wrapped_detail(out, "root", root.as_str(), width);
    swarm_details::push_wrapped_detail(
        out,
        "run",
        text::cat2(root.as_str(), "run.json").as_str(),
        width,
    );
    swarm_details::push_wrapped_detail(
        out,
        "thread",
        text::cat2(root.as_str(), "thread.md").as_str(),
        width,
    );
    let note: &str = chat_note_of(shown.run.is_some(), shown.saved);
    swarm_details::push_wrapped_detail(out, "note", note, width);
    swarm_details::push_wrapped_detail(out, "history", "Press R to browse saved runs.", width);
    let session: Option<String> = lookup_copy(&st.agents.claude_session_ids, id);
    push_opt(out, "claude_session", &session, width);
    let live: Option<String> = lookup_copy(&st.agents.codex_thread_ids, id);
    let archived: Option<String> = match shown.run {
        Some(run) => state::clone_opt(&run.codex_thread_id),
        None => None,
    };
    let thread: Option<String> = if live.is_some() {
        live
    } else if archived.is_some() {
        archived
    } else {
        match &st.saved.current {
            Some(c) => state::clone_opt(&c.run.codex_thread_id),
            None => None,
        }
    };
    push_opt(out, "codex_thread", &thread, width);
}

pub fn append_ad_hoc_agent_lines(out: &mut Vec<String>, st: &AppState, id: &str, width: usize)
    ensures
        text::texts(final(out)@) == text::texts(old(out)@) + chat_provenance(
            *st,
            id@,
            width as int,
        ),
{
    broadcast use text::group_line_lists;

    push_chat_blocks(out, st, id, width);
    push_chat_tail(out, st, id, width);
}

} // verus!
