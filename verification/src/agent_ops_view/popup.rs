//! The artifact that is opened from the list.

use vstd::prelude::*;

use crate::agent_ops_view::artifacts;
use crate::agent_ops_view::cards;
use crate::agent_ops_view::cards::ArtifactCard;
use crate::agent_ops_view::cards::ArtifactsPopupRef;
use crate::agent_ops_view::cards::Card;
use crate::agent_ops_view::cards::Reference;
use crate::agent_ops_view::context_cards;
use crate::agent_ops_view::history;
use crate::agent_ops_view::provenance;
use crate::agent_ops_view::roster_lines;
use crate::agent_ops_view::swarm_details;
use crate::state;
use crate::state::AgentLane;
use crate::state::AgentMessage;
use crate::state::AppState;
use crate::state::EvidenceItem;
use crate::state::Patch;
use crate::state::PersistedPatchRecord;
use crate::state::SwarmPersistenceView;
use crate::state::SwarmRuntime;
use crate::state::SwarmTaskPersistenceView;
use crate::text;

verus! {

/// The cards of the list at a given width.
pub open spec fn listed_cards(st: AppState, swarm: Option<&SwarmRuntime>, given: int) -> Seq<Card> {
    context_cards::context_cards(
        st,
        swarm,
        artifacts::preview_width(text::max_int(given, 32)),
    )
}

fn list_cards(st: &AppState, swarm: Option<&SwarmRuntime>, given: usize) -> (r: Vec<ArtifactCard>)
    ensures
        cards::cards(r@) == listed_cards(*st, swarm, given as int),
        r@.len() == listed_cards(*st, swarm, given as int).len(),
{
    let r: Vec<ArtifactCard> = context_cards::artifact_cards_for_context(
        st,
        swarm,
        artifacts::preview_chars(text::max_of(given, 32)),
    );
    assert(cards::cards(r@).len() == r@.len());
    r
}

/// The card that is selected.
pub open spec fn selected(st: AppState, swarm: Option<&SwarmRuntime>, given: int) -> Option<Card> {
    let v: Seq<Card> = listed_cards(st, swarm, given);
    if v.len() == 0 {
        None
    } else {
        Some(v[artifacts::selected_card(st, v.len() as int)])
    }
}

fn select(st: &AppState, swarm: Option<&SwarmRuntime>, given: usize) -> (r: Option<ArtifactCard>)
    ensures
        match r {
            Some(c) => selected(*st, swarm, given as int) == Some(c@),
            None => selected(*st, swarm, given as int) is None,
        },
{
    let mut v: Vec<ArtifactCard> = list_cards(st, swarm, given);
    if v.len() == 0 {
        return None;
    }
    let at: usize = text::min_of(st.agents.artifacts_selected, v.len() - 1);
    assert(v@[at as int]@ == cards::cards(v@)[at as int]);
    Some(v.remove(at))
}

pub fn artifacts_popup_ref(st: &AppState, swarm: &SwarmRuntime, width: usize) -> (r: Option<
    ArtifactsPopupRef,
>)
    ensures
        match r {
            Some(x) => selected(*st, Some(swarm), width as int) matches Some(c) && x@
                == c.reference,
            None => selected(*st, Some(swarm), width as int) is None,
        },
{
    match select(st, Some(swarm), width) {
        Some(c) => Some(c.reference),
        None => None,
    }
}

/// Whether an agent of this name is there.
pub open spec fn agent_exists(agents: Seq<AgentLane>, id: Seq<char>) -> bool {
    exists|i: int| 0 <= i < agents.len() && (#[trigger] agents[i]).id@ == id
}

fn has_agent(agents: &Vec<AgentLane>, id: &str) -> (r: bool)
    ensures
        r == agent_exists(agents@, id@),
{
    let mut i: usize = 0;
    while i < agents.len()
        invariant
            i <= agents@.len(),
            forall|j: int| 0 <= j < i ==> (#[trigger] agents@[j]).id@ != id@,
        decreases agents@.len() - i,
    {
        if text::str_eq(agents[i].id.as_str(), id) {
            return true;
        }
        i += 1;
    }
    false
}

/// The planner of a mission's swarm.
pub open spec fn planner(swarm: SwarmRuntime, id: Seq<char>) -> Option<Seq<char>> {
    match state::value_of(swarm.progress@, id) {
        Some(p) => text::opt_text(p.planner_agent_id),
        None => None,
    }
}

fn find_planner(swarm: &SwarmRuntime, id: &str) -> (r: Option<String>)
    ensures
        text::opt_text(r) == planner(*swarm, id@),
{
    match state::lookup(&swarm.progress, id) {
        Some(p) => state::clone_opt(&p.planner_agent_id),
        None => None,
    }
}

/// The mission of an artifact of a swarm.
pub open spec fn swarm_mission(r: Reference) -> Option<Seq<char>> {
    match r {
        Reference::SwarmTask { mission_id, .. } => Some(mission_id),
        Reference::SwarmReport { mission_id } => Some(mission_id),
        Reference::SwarmVerify { mission_id } => Some(mission_id),
        _ => None,
    }
}

fn swarm_mission_of<'a>(r: &'a ArtifactsPopupRef) -> (m: Option<&'a String>)
    ensures
        match m {
            Some(s) => swarm_mission(r@) == Some(s@),
            None => swarm_mission(r@) is None,
        },
{
    match r {
        ArtifactsPopupRef::SwarmTask { mission_id, .. } => Some(mission_id),
        ArtifactsPopupRef::SwarmReport { mission_id } => Some(mission_id),
        ArtifactsPopupRef::SwarmVerify { mission_id } => Some(mission_id),
        _ => None,
    }
}

/// Who made the artifact on a card.
pub open spec fn card_agent(st: AppState, swarm: SwarmRuntime, card: Card) -> Option<Seq<char>> {
    match card.reference {
        Reference::Message { idx } => if idx < st.agents.messages@.len() {
            text::opt_text(st.agents.messages@[idx as int].agent_id)
        } else {
            None
        },
        Reference::Patch { idx } => if idx < st.agents.patches@.len() {
            Some(st.agents.patches@[idx as int].agent_id@)
        } else {
            None
        },
        Reference::Evidence { idx } => if idx < st.agents.evidence@.len() {
            text::opt_text(st.agents.evidence@[idx as int].agent_id)
        } else {
            None
        },
        Reference::PersistedMessage { message } => text::opt_text(message.agent_id),
        Reference::PersistedPatch { patch, .. } => Some(patch.agent_id@),
        Reference::PersistedEvidence { item } => text::opt_text(item.agent_id),
        _ => match swarm_mission(card.reference) {
            Some(id) => {
                let owner: Seq<char> = text::trimmed(card.owner);
                if owner.len() > 0 && agent_exists(st.agents.agents@, owner) {
                    Some(owner)
                } else {
                    planner(swarm, id)
                }
            },
            None => None,
        },
    }
}

/// The agent that produced the selected artifact, to whom a chat about it goes.
pub fn selected_artifact_agent_id(st: &AppState, swarm: &SwarmRuntime, width: usize) -> (r: Option<
    String,
>)
    ensures
        text::opt_text(r) == (match selected(*st, Some(swarm), width as int) {
            Some(c) => card_agent(*st, *swarm, c),
            None => None,
        }),
{
    let card: ArtifactCard = match select(st, Some(swarm), width) {
        Some(c) => c,
        None => {
            return None;
        },
    };
    match &card.reference {
        ArtifactsPopupRef::Message { idx } => {
            if *idx < st.agents.messages.len() {
                return state::clone_opt(&st.agents.messages[*idx].agent_id);
            }
            return None;
        },
        ArtifactsPopupRef::Patch { idx } => {
            if *idx < st.agents.patches.len() {
                return Some(st.agents.patches[*idx].agent_id.clone());
            }
            return None;
        },
        ArtifactsPopupRef::Evidence { idx } => {
            if *idx < st.agents.evidence.len() {
                return state::clone_opt(&st.agents.evidence[*idx].agent_id);
            }
            return None;
        },
        ArtifactsPopupRef::PersistedMessage { message } => {
            return state::clone_opt(&message.agent_id);
        },
        ArtifactsPopupRef::PersistedPatch { patch, .. } => {
            return Some(patch.agent_id.clone());
        },
        ArtifactsPopupRef::PersistedEvidence { item } => {
            return state::clone_opt(&item.agent_id);
        },
        _ => {},
    }
    match swarm_mission_of(&card.reference) {
        Some(id) => {
            let owner: String = text::trim(card.owner.as_str());
            if text::length(owner.as_str()) > 0 && has_agent(&st.agents.agents, owner.as_str()) {
                Some(owner)
            } else {
                find_planner(swarm, id.as_str())
            }
        },
        None => None,
    }
}

/// The mission of the artifact on a card.
pub open spec fn card_mission(st: AppState, card: Card) -> Option<Seq<char>> {
    match card.reference {
        Reference::Message { idx } => if idx < st.agents.messages@.len() {
            text::opt_text(st.agents.messages@[idx as int].mission_id)
        } else {
            None
        },
        Reference::Patch { idx } => if idx < st.agents.patches@.len() {
            text::opt_text(st.agents.patches@[idx as int].mission_id)
        } else {
            None
        },
        Reference::Evidence { idx } => if idx < st.agents.evidence@.len() {
            text::opt_text(st.agents.evidence@[idx as int].mission_id)
        } else {
            None
        },
        Reference::PersistedMessage { message } => text::opt_text(message.mission_id),
        Reference::PersistedPatch { patch, .. } => text::opt_text(patch.mission_id),
        Reference::PersistedEvidence { item } => text::opt_text(item.mission_id),
        _ => swarm_mission(card.reference),
    }
}

pub fn selected_artifact_mission_id(st: &AppState, swarm: &SwarmRuntime, width: usize) -> (r: Option<
    String,
>)
    ensures
        text::opt_text(r) == (match selected(*st, Some(swarm), width as int) {
            Some(c) => card_mission(*st, c),
            None => None,
        }),
{
    let card: ArtifactCard = match select(st, Some(swarm), width) {
        Some(c) => c,
        None => {
            return None;
        },
    };
    match &card.reference {
        ArtifactsPopupRef::Message { idx } => {
            if *idx < st.agents.messages.len() {
                return state::clone_opt(&st.agents.messages[*idx].mission_id);
            }
            return None;
        },
        ArtifactsPopupRef::Patch { idx } => {
            if *idx < st.agents.patches.len() {
                return state::clone_opt(&st.agents.patches[*idx].mission_id);
            }
            return None;
        },
        ArtifactsPopupRef::Evidence { idx } => {
            if *idx < st.agents.evidence.len() {
                return state::clone_opt(&st.agents.evidence[*idx].mission_id);
            }
            return None;
        },
        ArtifactsPopupRef::PersistedMessage { message } => {
            return state::clone_opt(&message.mission_id);
        },
        ArtifactsPopupRef::PersistedPatch { patch, .. } => {
            return state::clone_opt(&patch.mission_id);
        },
        ArtifactsPopupRef::PersistedEvidence { item } => {
            return state::clone_opt(&item.mission_id);
        },
        _ => {},
    }
    match swarm_mission_of(&card.reference) {
        Some(id) => Some(id.clone()),
        None => None,
    }
}

/// Whether the selected artifact is a message of the user.
pub fn is_selected_artifact_prompt(st: &AppState, swarm: &SwarmRuntime, width: usize) -> (r: bool)
    ensures
        r == (selected(*st, Some(swarm), width as int) matches Some(c) && c.kind == "PROMPT"@),
{
    match select(st, Some(swarm), width) {
        Some(c) => text::str_eq(c.kind, "PROMPT"),
        None => false,
    }
}

/// The first card from place `i` on that stands for `r`.
pub open spec fn card_from(v: Seq<Card>, r: Reference, i: int) -> Option<int>
    decreases v.len() - i,
{
    if i < 0 || i >= v.len() {
        None
    } else if v[i].reference == r {
        Some(i)
    } else {
        card_from(v, r, i + 1)
    }
}

/// The card that stands for `r`.
pub open spec fn card_of(v: Seq<Card>, r: Reference) -> Option<int> {
    card_from(v, r, 0)
}

/// What can be looked for among the cards.
enum Sought<'a> {
    Message(usize),
    Task(&'a str, &'a str),
    Report(&'a str),
    Verify(&'a str),
}

spec fn sought(s: Sought) -> Reference {
    match s {
        Sought::Message(idx) => Reference::Message { idx },
        Sought::Task(m, t) => Reference::SwarmTask { mission_id: m@, task_id: t@ },
        Sought::Report(m) => Reference::SwarmReport { mission_id: m@ },
        Sought::Verify(m) => Reference::SwarmVerify { mission_id: m@ },
    }
}

fn is_sought(r: &ArtifactsPopupRef, s: &Sought) -> (b: bool)
    ensures
        b == (r@ == sought(*s)),
{
    match (r, s) {
        (ArtifactsPopupRef::Message { idx }, Sought::Message(i)) => *idx == *i,
        (ArtifactsPopupRef::SwarmTask { mission_id, task_id }, Sought::Task(m, t)) => text::str_eq(
            mission_id.as_str(),
            m,
        ) && text::str_eq(task_id.as_str(), t),
        (ArtifactsPopupRef::SwarmReport { mission_id }, Sought::Report(m)) => text::str_eq(
            mission_id.as_str(),
            m,
        ),
        (ArtifactsPopupRef::SwarmVerify { mission_id }, Sought::Verify(m)) => text::str_eq(
            mission_id.as_str(),
            m,
        ),
        _ => false,
    }
}

fn find_card(st: &AppState, swarm: Option<&SwarmRuntime>, width: usize, s: Sought) -> (r: Option<
    usize,
>)
    ensures
        match r {
            Some(k) => card_of(listed_cards(*st, swarm, width as int), sought(s)) == Some(k as int),
            None => card_of(listed_cards(*st, swarm, width as int), sought(s)) is None,
        },
{
    let v: Vec<ArtifactCard> = list_cards(st, swarm, width);
    let ghost all: Seq<Card> = cards::cards(v@);
    let mut i: usize = 0;
    while i < v.len()
        invariant
            i <= v@.len(),
            all == cards::cards(v@),
            all == listed_cards(*st, swarm, width as int),
            card_of(all, sought(s)) == card_from(all, sought(s), i as int),
        decreases v@.len() - i,
    {
        assert(all[i as int] == v@[i as int]@);
        if is_sought(&v[i].reference, &s) {
            return Some(i);
        }
        i += 1;
    }
    None
}

/// Whether a place is the one that is named.
pub open spec fn same_place(r: Option<usize>, want: Option<int>) -> bool {
    match r {
        Some(k) => want == Some(k as int),
        None => want is None,
    }
}

pub fn artifacts_card_index_for_swarm_task(
    st: &AppState,
    swarm: &SwarmRuntime,
    width: usize,
    mission_id: &str,
    task_id: &str,
) -> (r: Option<usize>)
    ensures
        same_place(
            r,
            card_of(
                listed_cards(*st, Some(swarm), width as int),
                Reference::SwarmTask { mission_id: mission_id@, task_id: task_id@ },
            ),
        ),
{
    find_card(st, Some(swarm), width, Sought::Task(mission_id, task_id))
}

pub fn artifacts_card_index_for_swarm_report(
    st: &AppState,
    swarm: &SwarmRuntime,
    width: usize,
    mission_id: &str,
) -> (r: Option<usize>)
    ensures
        same_place(
            r,
            card_of(
                listed_cards(*st, Some(swarm), width as int),
                Reference::SwarmReport { mission_id: mission_id@ },
            ),
        ),
{
    find_card(st, Some(swarm), width, Sought::Report(mission_id))
}

pub fn artifacts_card_index_for_swarm_verify(
    st: &AppState,
    swarm: &SwarmRuntime,
    width: usize,
    mission_id: &str,
) -> (r: Option<usize>)
    ensures
        same_place(
            r,
            card_of(
                listed_cards(*st, Some(swarm), width as int),
                Reference::SwarmVerify { mission_id: mission_id@ },
            ),
        ),
{
    find_card(st, Some(swarm), width, Sought::Verify(mission_id))
}

pub fn artifacts_card_index_for_message(
    st: &AppState,
    swarm: Option<&SwarmRuntime>,
    width: usize,
    message_idx: usize,
) -> (r: Option<usize>)
    ensures
        same_place(
            r,
            card_of(
                listed_cards(*st, swarm, width as int),
                Reference::Message { idx: message_idx },
            ),
        ),
{
    find_card(st, swarm, width, Sought::Message(message_idx))
}

/// The card of an artifact that is open: changes, findings and what was saved are not looked up.
pub open spec fn card_of_popup(
    st: AppState,
    swarm: Option<&SwarmRuntime>,
    width: int,
    r: Reference,
) -> Option<int> {
    match r {
        Reference::Message { .. } => card_of(listed_cards(st, swarm, width), r),
        _ => if swarm_mission(r) is Some && swarm is Some {
            card_of(listed_cards(st, swarm, width), r)
        } else {
            None
        },
    }
}

pub fn artifacts_card_index_for_popup_ref(
    st: &AppState,
    swarm: Option<&SwarmRuntime>,
    width: usize,
    popup_ref: &ArtifactsPopupRef,
) -> (r: Option<usize>)
    ensures
        same_place(r, card_of_popup(*st, swarm, width as int, popup_ref@)),
{
    match popup_ref {
        ArtifactsPopupRef::Message { idx } => artifacts_card_index_for_message(
            st,
            swarm,
            width,
            *idx,
        ),
        ArtifactsPopupRef::SwarmTask { mission_id, task_id } => match swarm {
            Some(s) => artifacts_card_index_for_swarm_task(
                st,
                s,
                width,
                mission_id.as_str(),
                task_id.as_str(),
            ),
            None => None,
        },
        ArtifactsPopupRef::SwarmReport { mission_id } => match swarm {
            Some(s) => artifacts_card_index_for_swarm_report(st, s, width, mission_id.as_str()),
            None => None,
        },
        ArtifactsPopupRef::SwarmVerify { mission_id } => match swarm {
            Some(s) => artifacts_card_index_for_swarm_verify(st, s, width, mission_id.as_str()),
            None => None,
        },
        _ => None,
    }
}

/// What of a swarm a message is: its report, the output of a task or that of the gates.
pub open spec fn swarm_part(
    view: SwarmPersistenceView,
    mission: Seq<char>,
    agent: Seq<char>,
    said: Seq<char>,
) -> Option<Reference> {
    if text::opt_text(view.report_output) == Some(said) && (match view.report_agent_id {
        Some(a) => a@ == agent,
        None => true,
    }) {
        Some(Reference::SwarmReport { mission_id: mission })
    } else {
        match context_cards::task_that_wrote(
            view.tasks@,
            agent,
            said,
            view.tasks@.len() as int,
        ) {
            Some(k) => Some(
                Reference::SwarmTask { mission_id: mission, task_id: view.tasks@[k].id@ },
            ),
            None => if text::opt_text(view.gate_output) == Some(said) {
                Some(Reference::SwarmVerify { mission_id: mission })
            } else {
                None
            },
        }
    }
}

fn find_swarm_part(view: &SwarmPersistenceView, mission: &str, agent: &str, said: &str) -> (r:
    Option<ArtifactsPopupRef>)
    ensures
        match r {
            Some(x) => swarm_part(*view, mission@, agent@, said@) == Some(x@),
            None => swarm_part(*view, mission@, agent@, said@) is None,
        },
{
    if text::opt_str_eq(&view.report_output, said) && (match &view.report_agent_id {
        Some(a) => text::str_eq(a.as_str(), agent),
        None => true,
    }) {
        return Some(ArtifactsPopupRef::SwarmReport { mission_id: text::copy(mission) });
    }
    if let Some(k) = context_cards::find_task_that_wrote(&view.tasks, agent, said) {
        return Some(
            ArtifactsPopupRef::SwarmTask {
                mission_id: text::copy(mission),
                task_id: view.tasks[k].id.clone(),
            },
        );
    }
    if text::opt_str_eq(&view.gate_output, said) {
        return Some(ArtifactsPopupRef::SwarmVerify { mission_id: text::copy(mission) });
    }
    None
}

/// What opens for a message: the part of a swarm that it is; else the message itself, where an
/// agent wrote it or the list shows it.
pub open spec fn popup_of_message(
    st: AppState,
    swarm: Option<&SwarmRuntime>,
    width: int,
    idx: usize,
) -> Option<Reference> {
    if idx >= st.agents.messages@.len() {
        None
    } else {
        let m: AgentMessage = st.agents.messages@[idx as int];
        let part: Option<Reference> = match (m.mission_id, m.agent_id) {
            (Some(mission), Some(agent)) => match context_cards::swarm_view(swarm, mission@) {
                Some(view) => swarm_part(view, mission@, agent@, m.text@),
                None => None,
            },
            _ => None,
        };
        if part is Some {
            part
        } else if m.agent_id is Some || card_of(
            listed_cards(st, swarm, width),
            Reference::Message { idx },
        ) is Some {
            Some(Reference::Message { idx })
        } else {
            None
        }
    }
}

pub fn artifacts_popup_ref_for_message(
    st: &AppState,
    swarm: Option<&SwarmRuntime>,
    width: usize,
    message_idx: usize,
) -> (r: Option<ArtifactsPopupRef>)
    ensures
        match r {
            Some(x) => popup_of_message(*st, swarm, width as int, message_idx) == Some(x@),
            None => popup_of_message(*st, swarm, width as int, message_idx) is None,
        },
{
    if message_idx >= st.agents.messages.len() {
        return None;
    }
    let m: &AgentMessage = &st.agents.messages[message_idx];
    if let (Some(mission), Some(agent)) = (&m.mission_id, &m.agent_id) {
        if let Some(view) = context_cards::find_swarm(swarm, mission.as_str()) {
            if let Some(x) = find_swarm_part(
                view,
                mission.as_str(),
                agent.as_str(),
                m.text.as_str(),
            ) {
                return Some(x);
            }
        }
    }
    if m.agent_id.is_some() || artifacts_card_index_for_message(
        st,
        swarm,
        width,
        message_idx,
    ).is_some() {
        return Some(ArtifactsPopupRef::Message { idx: message_idx });
    }
    None
}

/// An optional text, or another one where it is missing, behind a label.
pub open spec fn or_detail(
    label: Seq<char>,
    s: Option<String>,
    other: Seq<char>,
    width: int,
) -> Seq<Seq<char>> {
    swarm_details::detail(label, swarm_details::text_or(s, other), width)
}

fn push_or(out: &mut Vec<String>, label: &str, s: &Option<String>, other: &str, width: usize)
    ensures
        text::texts(final(out)@) == text::texts(old(out)@) + or_detail(
            label@,
            *s,
            other@,
            width as int,
        ),
{
    let value: String = swarm_details::string_or(s, other);
    swarm_details::push_wrapped_detail(out, label, value.as_str(), width);
}

/// An optional text behind a label; nothing where it is missing.
fn push_if(out: &mut Vec<String>, label: &str, s: &Option<String>, width: usize)
    ensures
        text::texts(final(out)@) == text::texts(old(out)@) + provenance::opt_detail(
            label@,
            text::opt_text(*s),
            width as int,
        ),
{
    broadcast use text::group_line_lists;

    if let Some(v) = s {
        swarm_details::push_wrapped_detail(out, label, v.as_str(), width);
    }
}

/// A rule and a title below it.
pub open spec fn section(title: Seq<char>, width: int) -> Seq<Seq<char>> {
    seq![roster_lines::rule(width), title]
}

fn push_section(out: &mut Vec<String>, title: &str, width: usize)
    ensures
        text::texts(final(out)@) == text::texts(old(out)@) + section(title@, width as int),
{
    broadcast use text::group_texts;

    let ghost before: Seq<Seq<char>> = text::texts(out@);
    out.push(roster_lines::rule_line(width));
    out.push(text::copy(title));
    assert(text::texts(out@) =~= before + section(title@, width as int));
}

/// A message in full.
#[verifier::opaque]
pub open spec fn message_lines(m: AgentMessage, width: int) -> Seq<Seq<char>> {
    swarm_details::detail("at"@, m.at@, width) + or_detail("agent"@, m.agent_id, "You"@, width)
        + or_detail("mission"@, m.mission_id, "ad-hoc"@, width) + section(" Content"@, width)
        + swarm_details::indented(m.text@, width)
}

fn push_message(out: &mut Vec<String>, m: &AgentMessage, width: usize)
    ensures
        text::texts(final(out)@) == text::texts(old(out)@) + message_lines(*m, width as int),
{
    reveal(message_lines);
    broadcast use text::group_line_lists;

    swarm_details::push_wrapped_detail(out, "at", m.at.as_str(), width);
    push_or(out, "agent", &m.agent_id, "You", width);
    push_or(out, "mission", &m.mission_id, "ad-hoc", width);
    push_section(out, " Content", width);
    swarm_details::push_indented(out, m.text.as_str(), width);
}

/// A change in full.
#[verifier::opaque]
pub open spec fn patch_lines(p: Patch, width: int) -> Seq<Seq<char>> {
    swarm_details::detail("id"@, p.id@, width) + swarm_details::detail(
        "status"@,
        p.status_label@,
        width,
    ) + swarm_details::detail("agent"@, p.agent_id@, width) + or_detail(
        "mission"@,
        p.mission_id,
        "ad-hoc"@,
        width,
    ) + (match p.mission_id {
        Some(m) => swarm_details::detail(
            "path"@,
            ".nit/agents/runs/"@ + m@ + "/patches/"@ + history::sanitized(p.id@) + ".diff"@,
            width,
        ),
        None => Seq::empty(),
    }) + swarm_details::detail("title"@, p.title@, width) + swarm_details::detail(
        "summary"@,
        p.summary@,
        width,
    ) + section(" Diff (excerpt)"@, width) + swarm_details::excerpt(p.diff@, 180, "diff"@, width)
}

fn push_patch(out: &mut Vec<String>, p: &Patch, width: usize)
    ensures
        text::texts(final(out)@) == text::texts(old(out)@) + patch_lines(*p, width as int),
{
    reveal(patch_lines);
    broadcast use text::group_line_lists;

    swarm_details::push_wrapped_detail(out, "id", p.id.as_str(), width);
    swarm_details::push_wrapped_detail(out, "status", p.status_label.as_str(), width);
    swarm_details::push_wrapped_detail(out, "agent", p.agent_id.as_str(), width);
    push_or(out, "mission", &p.mission_id, "ad-hoc", width);
    if let Some(m) = &p.mission_id {
        let file: String = history::sanitize_artifact_path_segment(p.id.as_str());
        let path: String = text::cat5(
            ".nit/agents/runs/",
            m.as_str(),
            "/patches/",
            file.as_str(),
            ".diff",
        );
        swarm_details::push_wrapped_detail(out, "path", path.as_str(), width);
    }
    swarm_details::push_wrapped_detail(out, "title", p.title.as_str(), width);
    swarm_details::push_wrapped_detail(out, "summary", p.summary.as_str(), width);
    push_section(out, " Diff (excerpt)", width);
    swarm_details::push_excerpt(out, p.diff.as_str(), 180, "diff", width);
}

/// The text of a saved change: its own, or that of its file where it has none.
pub open spec fn saved_diff(st: AppState, p: PersistedPatchRecord, path: Option<Seq<char>>) -> Seq<
    char,
> {
    if text::trimmed(p.diff@).len() > 0 {
        p.diff@
    } else {
        match path {
            Some(f) => swarm_details::text_or(state::value_of(st.saved.diffs@, f), ""@),
            None => ""@,
        }
    }
}

pub fn persisted_patch_diff_excerpt(
    st: &AppState,
    p: &PersistedPatchRecord,
    path: &Option<String>,
) -> (r: String)
    ensures
        r@ == saved_diff(*st, *p, text::opt_text(*path)),
{
    if !text::is_blank(p.diff.as_str()) {
        return p.diff.clone();
    }
    match path {
        Some(f) => match state::lookup(&st.saved.diffs, f.as_str()) {
            Some(s) => s.clone(),
            None => text::copy(""),
        },
        None => text::copy(""),
    }
}

/// A saved change in full.
#[verifier::opaque]
pub open spec fn saved_patch_lines(
    st: AppState,
    p: PersistedPatchRecord,
    path: Option<Seq<char>>,
    width: int,
) -> Seq<Seq<char>> {
    swarm_details::detail("id"@, p.id@, width) + swarm_details::detail(
        "status"@,
        if text::trimmed(p.status@).len() == 0 {
            "--"@
        } else {
            p.status@
        },
        width,
    ) + swarm_details::detail("agent"@, p.agent_id@, width) + or_detail(
        "mission"@,
        p.mission_id,
        "ad-hoc"@,
        width,
    ) + provenance::opt_detail("path"@, path, width) + swarm_details::detail(
        "title"@,
        p.title@,
        width,
    ) + swarm_details::detail("summary"@, p.summary@, width) + section(" Diff (excerpt)"@, width)
        + swarm_details::excerpt(saved_diff(st, p, path), 180, "diff"@, width)
}

fn push_saved_patch(
    out: &mut Vec<String>,
    st: &AppState,
    p: &PersistedPatchRecord,
    path: &Option<String>,
    width: usize,
)
    ensures
        text::texts(final(out)@) == text::texts(old(out)@) + saved_patch_lines(
            *st,
            *p,
            text::opt_text(*path),
            width as int,
        ),
{
    reveal(saved_patch_lines);
    broadcast use text::group_line_lists;

    swarm_details::push_wrapped_detail(out, "id", p.id.as_str(), width);
    let blank: bool = text::is_blank(p.status.as_str());
    swarm_details::push_wrapped_detail(
        out,
        "status",
        if blank {
            "--"
        } else {
            p.status.as_str()
        },
        width,
    );
    swarm_details::push_wrapped_detail(out, "agent", p.agent_id.as_str(), width);
    push_or(out, "mission", &p.mission_id, "ad-hoc", width);
    push_if(out, "path", path, width);
    swarm_details::push_wrapped_detail(out, "title", p.title.as_str(), width);
    swarm_details::push_wrapped_detail(out, "summary", p.summary.as_str(), width);
    push_section(out, " Diff (excerpt)", width);
    let diff: String = persisted_patch_diff_excerpt(st, p, path);
    swarm_details::push_excerpt(out, diff.as_str(), 180, "diff", width);
}

/// A finding in full.
#[verifier::opaque]
pub open spec fn evidence_lines(e: EvidenceItem, width: int) -> Seq<Seq<char>> {
    swarm_details::detail("id"@, e.id@, width) + provenance::opt_detail(
        "agent"@,
        text::opt_text(e.agent_id),
        width,
    ) + or_detail("mission"@, e.mission_id, "ad-hoc"@, width) + swarm_details::detail(
        "title"@,
        e.title@,
        width,
    ) + swarm_details::detail("detail"@, e.detail@, width) + provenance::opt_detail(
        "link"@,
        text::opt_text(e.link),
        width,
    )
}

fn push_evidence(out: &mut Vec<String>, e: &EvidenceItem, width: usize)
    ensures
        text::texts(final(out)@) == text::texts(old(out)@) + evidence_lines(*e, width as int),
{
    reveal(evidence_lines);
    broadcast use text::group_line_lists;

    swarm_details::push_wrapped_detail(out, "id", e.id.as_str(), width);
    push_if(out, "agent", &e.agent_id, width);
    push_or(out, "mission", &e.mission_id, "ad-hoc", width);
    swarm_details::push_wrapped_detail(out, "title", e.title.as_str(), width);
    swarm_details::push_wrapped_detail(out, "detail", e.detail.as_str(), width);
    push_if(out, "link", &e.link, width);
}

/// The first task of this name from place `i` on.
pub open spec fn task_from(tasks: Seq<SwarmTaskPersistenceView>, id: Seq<char>, i: int) -> Option<
    int,
>
    decreases tasks.len() - i,
{
    if i < 0 || i >= tasks.len() {
        None
    } else if tasks[i].id@ == id {
        Some(i)
    } else {
        task_from(tasks, id, i + 1)
    }
}

pub fn find_task(tasks: &Vec<SwarmTaskPersistenceView>, id: &str) -> (r: Option<usize>)
    ensures
        match r {
            Some(k) => k < tasks@.len() && task_from(tasks@, id@, 0) == Some(k as int),
            None => task_from(tasks@, id@, 0) is None,
        },
{
    let mut i: usize = 0;
    while i < tasks.len()
        invariant
            i <= tasks@.len(),
            task_from(tasks@, id@, 0) == task_from(tasks@, id@, i as int),
        decreases tasks@.len() - i,
    {
        if text::str_eq(tasks[i].id.as_str(), id) {
            return Some(i);
        }
        i += 1;
    }
    None
}

/// The artifact of a card in full, and whether what it stands for was there.
#[verifier::opaque]
pub open spec fn body_lines(st: AppState, swarm: SwarmRuntime, r: Reference, width: int) -> (
    Seq<Seq<char>>,
    bool,
) {
    match r {
        Reference::Message { idx } => if idx < st.agents.messages@.len() {
            (message_lines(st.agents.messages@[idx as int], width), true)
        } else {
            (seq![" Message not found."@], false)
        },
        Reference::PersistedMessage { message } => (message_lines(message, width), true),
        Reference::Patch { idx } => if idx < st.agents.patches@.len() {
            (patch_lines(st.agents.patches@[idx as int], width), true)
        } else {
            (seq![" Patch not found."@], false)
        },
        Reference::PersistedPatch { patch, path } => (
            saved_patch_lines(st, patch, path, width),
            true,
        ),
        Reference::Evidence { idx } => if idx < st.agents.evidence@.len() {
            (evidence_lines(st.agents.evidence@[idx as int], width), true)
        } else {
            (seq![" Evidence item not found."@], false)
        },
        Reference::PersistedEvidence { item } => (evidence_lines(item, width), true),
        Reference::SwarmTask { mission_id, task_id } => match state::value_of(
            swarm.persistence@,
            mission_id,
        ) {
            Some(view) => match task_from(view.tasks@, task_id, 0) {
                Some(k) => (
                    swarm_details::task_details(
                        st.agents.role_names@,
                        view,
                        view.tasks@[k],
                        width,
                    ),
                    true,
                ),
                None => (seq![" Swarm task not found."@], false),
            },
            None => (seq![" Swarm persistence not available."@], false),
        },
        Reference::SwarmReport { mission_id } => match state::value_of(
            swarm.persistence@,
            mission_id,
        ) {
            Some(view) => (swarm_details::report_details(view, width), true),
            None => (seq![" Swarm persistence not available."@], false),
        },
        Reference::SwarmVerify { mission_id } => match state::value_of(
            swarm.persistence@,
            mission_id,
        ) {
            Some(view) => (swarm_details::verify_details(view, width), true),
            None => (seq![" Swarm persistence not available."@], false),
        },
    }
}

fn push_line(out: &mut Vec<String>, line: &str)
    ensures
        text::texts(final(out)@) == text::texts(old(out)@) + seq![line@],
{
    broadcast use text::group_texts;

    let ghost before: Seq<Seq<char>> = text::texts(out@);
    out.push(text::copy(line));
    assert(text::texts(out@) =~= before + seq![line@]);
}

fn push_swarm_part(
    out: &mut Vec<String>,
    st: &AppState,
    swarm: &SwarmRuntime,
    r: &ArtifactsPopupRef,
    id: &str,
    width: usize,
) -> (found: bool)
    requires
        swarm_mission(r@) == Some(id@),
    ensures
        text::texts(final(out)@) == text::texts(old(out)@) + body_lines(
            *st,
            *swarm,
            r@,
            width as int,
        ).0,
        found == body_lines(*st, *swarm, r@, width as int).1,
{
    reveal(body_lines);
    let view: &SwarmPersistenceView = match state::lookup(&swarm.persistence, id) {
        Some(v) => v,
        None => {
            push_line(out, " Swarm persistence not available.");
            return false;
        },
    };
    match r {
        ArtifactsPopupRef::SwarmTask { task_id, .. } => match find_task(
            &view.tasks,
            task_id.as_str(),
        ) {
            Some(k) => {
                swarm_details::append_swarm_task_detail_lines(
                    out,
                    &st.agents.role_names,
                    view,
                    &view.tasks[k],
                    width,
                );
                true
            },
            None => {
                push_line(out, " Swarm task not found.");
                false
            },
        },
        ArtifactsPopupRef::SwarmReport { .. } => {
            swarm_details::append_swarm_report_detail_lines(out, view, width);
            true
        },
        _ => {
            swarm_details::append_swarm_verify_detail_lines(out, view, width);
            true
        },
    }
}

fn push_body(
    out: &mut Vec<String>,
    st: &AppState,
    swarm: &SwarmRuntime,
    r: &ArtifactsPopupRef,
    width: usize,
) -> (found: bool)
    ensures
        text::texts(final(out)@) == text::texts(old(out)@) + body_lines(
            *st,
            *swarm,
            r@,
            width as int,
        ).0,
        found == body_lines(*st, *swarm, r@, width as int).1,
{
    reveal(body_lines);
    match r {
        ArtifactsPopupRef::Message { idx } => {
            if *idx >= st.agents.messages.len() {
                push_line(out, " Message not found.");
                return false;
            }
            push_message(out, &st.agents.messages[*idx], width);
            true
        },
        ArtifactsPopupRef::PersistedMessage { message } => {
            push_message(out, message, width);
            true
        },
        ArtifactsPopupRef::Patch { idx } => {
            if *idx >= st.agents.patches.len() {
                push_line(out, " Patch not found.");
                return false;
            }
            push_patch(out, &st.agents.patches[*idx], width);
            true
        },
        ArtifactsPopupRef::PersistedPatch { patch, path } => {
            push_saved_patch(out, st, patch, path, width);
            true
        },
        ArtifactsPopupRef::Evidence { idx } => {
            if *idx >= st.agents.evidence.len() {
                push_line(out, " Evidence item not found.");
                return false;
            }
            push_evidence(out, &st.agents.evidence[*idx], width);
            true
        },
        ArtifactsPopupRef::PersistedEvidence { item } => {
            push_evidence(out, item, width);
            true
        },
        ArtifactsPopupRef::SwarmTask { mission_id, .. } => push_swarm_part(
            out,
            st,
            swarm,
            r,
            mission_id.as_str(),
            width,
        ),
        ArtifactsPopupRef::SwarmReport { mission_id } => push_swarm_part(
            out,
            st,
            swarm,
            r,
            mission_id.as_str(),
            width,
        ),
        ArtifactsPopupRef::SwarmVerify { mission_id } => push_swarm_part(
            out,
            st,
            swarm,
            r,
            mission_id.as_str(),
            width,
        ),
    }
}

/// Lines without the empty ones at the end.
pub open spec fn without_blank_end(lines: Seq<Seq<char>>) -> Seq<Seq<char>>
    decreases lines.len(),
{
    if lines.len() > 0 && lines.last().len() == 0 {
        without_blank_end(lines.drop_last())
    } else {
        lines
    }
}

fn trim_blank_end(out: &mut Vec<String>)
    ensures
        text::texts(final(out)@) == without_blank_end(text::texts(old(out)@)),
{
    let ghost all: Seq<Seq<char>> = text::texts(out@);
    let mut n: usize = out.len();
    assert(all.take(n as int) =~= all);
    while n > 0 && text::length(out[n - 1].as_str()) == 0
        invariant
            n <= out@.len(),
            all == text::texts(out@),
            without_blank_end(all) == without_blank_end(all.take(n as int)),
        decreases n,
    {
        assert(all[n - 1] == out@[n - 1]@);
        assert(all.take(n as int).drop_last() =~= all.take(n - 1));
        n -= 1;
    }
    assert(n > 0 ==> all.take(n as int).last() == out@[n - 1]@);
    out.truncate(n);
    assert(text::texts(out@) =~= all.take(n as int));
}

/// The lines of the selected artifact.
pub open spec fn strings(st: AppState, swarm: SwarmRuntime, given: int) -> Seq<Seq<char>> {
    let width: int = text::max_int(given, 32);
    match selected(st, Some(&swarm), width) {
        None => seq![" No artifacts captured yet."@],
        Some(card) => {
            let head: Seq<Seq<char>> = seq![
                " "@ + card.kind + "  "@ + card.owner + "  "@ + (if text::trimmed(card.at).len()
                    == 0 {
                    "--"@
                } else {
                    card.at
                }),
                roster_lines::rule(width),
            ];
            let body: (Seq<Seq<char>>, bool) = body_lines(st, swarm, card.reference, width);
            if body.1 {
                without_blank_end(head + body.0)
            } else {
                head + body.0
            }
        },
    }
}

pub fn artifacts_popup_strings(st: &AppState, swarm: &SwarmRuntime, given: usize) -> (r: Vec<String>)
    ensures
        text::texts(r@) == strings(*st, *swarm, given as int),
{
    let width: usize = text::max_of(given, 32);
    let card: ArtifactCard = match select(st, Some(swarm), width) {
        Some(c) => c,
        None => {
            let none: Vec<String> = vec![text::copy(" No artifacts captured yet.")];
            assert(text::texts(none@) =~= seq![" No artifacts captured yet."@]);
            return none;
        },
    };
    let blank: bool = text::is_blank(card.at.as_str());
    let title: String = text::cat6(
        " ",
        card.kind,
        "  ",
        card.owner.as_str(),
        "  ",
        if blank {
            "--"
        } else {
            card.at.as_str()
        },
    );
    let ghost line: Seq<char> = title@;
    let mut out: Vec<String> = vec![title, roster_lines::rule_line(width)];
    assert(text::texts(out@) =~= seq![line, roster_lines::rule(width as int)]);
    if push_body(&mut out, st, swarm, &card.reference, width) {
        trim_blank_end(&mut out);
    }
    out
}

/// A message that an agent wrote can always be opened.
pub proof fn replies_can_be_opened(
    st: AppState,
    swarm: Option<&SwarmRuntime>,
    width: int,
    idx: usize,
)
    requires
        idx < st.agents.messages@.len(),
        st.agents.messages@[idx as int].agent_id is Some,
    ensures
        popup_of_message(st, swarm, width, idx) is Some,
{
}

} // verus!
