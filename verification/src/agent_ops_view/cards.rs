//! The cards of the artifacts: prompts, replies, changes and findings.

use vstd::prelude::*;

use crate::agent_ops_view::grouping;
use crate::counting;
use crate::previews;
use crate::state;
use crate::state::AgentMessage;
use crate::state::AppState;
use crate::state::EvidenceItem;
use crate::state::Patch;
use crate::state::PersistedPatchRecord;
use crate::text;

verus! {

/// What a card stands for.
pub enum ArtifactsPopupRef {
    Message { idx: usize },
    Patch { idx: usize },
    Evidence { idx: usize },
    PersistedMessage { message: AgentMessage },
    PersistedPatch { patch: PersistedPatchRecord, path: Option<String> },
    PersistedEvidence { item: EvidenceItem },
    SwarmTask { mission_id: String, task_id: String },
    SwarmReport { mission_id: String },
    SwarmVerify { mission_id: String },
}

/// What a card stands for, as texts.
pub enum Reference {
    Message { idx: usize },
    Patch { idx: usize },
    Evidence { idx: usize },
    PersistedMessage { message: AgentMessage },
    PersistedPatch { patch: PersistedPatchRecord, path: Option<Seq<char>> },
    PersistedEvidence { item: EvidenceItem },
    SwarmTask { mission_id: Seq<char>, task_id: Seq<char> },
    SwarmReport { mission_id: Seq<char> },
    SwarmVerify { mission_id: Seq<char> },
}

impl View for ArtifactsPopupRef {
    type V = Reference;

    open spec fn view(&self) -> Reference {
        match *self {
            ArtifactsPopupRef::Message { idx } => Reference::Message { idx },
            ArtifactsPopupRef::Patch { idx } => Reference::Patch { idx },
            ArtifactsPopupRef::Evidence { idx } => Reference::Evidence { idx },
            ArtifactsPopupRef::PersistedMessage { message } => Reference::PersistedMessage {
                message,
            },
            ArtifactsPopupRef::PersistedPatch { patch, path } => Reference::PersistedPatch {
                patch,
                path: text::opt_text(path),
            },
            ArtifactsPopupRef::PersistedEvidence { item } => Reference::PersistedEvidence { item },
            ArtifactsPopupRef::SwarmTask { mission_id, task_id } => Reference::SwarmTask {
                mission_id: mission_id@,
                task_id: task_id@,
            },
            ArtifactsPopupRef::SwarmReport { mission_id } => Reference::SwarmReport {
                mission_id: mission_id@,
            },
            ArtifactsPopupRef::SwarmVerify { mission_id } => Reference::SwarmVerify {
                mission_id: mission_id@,
            },
        }
    }
}

impl ArtifactsPopupRef {
    pub fn copy(&self) -> (r: ArtifactsPopupRef)
        ensures
            r@ == self@,
    {
        match self {
            ArtifactsPopupRef::Message { idx } => ArtifactsPopupRef::Message { idx: *idx },
            ArtifactsPopupRef::Patch { idx } => ArtifactsPopupRef::Patch { idx: *idx },
            ArtifactsPopupRef::Evidence { idx } => ArtifactsPopupRef::Evidence { idx: *idx },
            ArtifactsPopupRef::PersistedMessage { message } => ArtifactsPopupRef::PersistedMessage {
                message: message.copy(),
            },
            ArtifactsPopupRef::PersistedPatch { patch, path } => ArtifactsPopupRef::PersistedPatch {
                patch: patch.copy(),
                path: state::clone_opt(path),
            },
            ArtifactsPopupRef::PersistedEvidence { item } => ArtifactsPopupRef::PersistedEvidence {
                item: item.copy(),
            },
            ArtifactsPopupRef::SwarmTask { mission_id, task_id } => ArtifactsPopupRef::SwarmTask {
                mission_id: mission_id.clone(),
                task_id: task_id.clone(),
            },
            ArtifactsPopupRef::SwarmReport { mission_id } => ArtifactsPopupRef::SwarmReport {
                mission_id: mission_id.clone(),
            },
            ArtifactsPopupRef::SwarmVerify { mission_id } => ArtifactsPopupRef::SwarmVerify {
                mission_id: mission_id.clone(),
            },
        }
    }
}

/// A card of the list of artifacts.
pub struct ArtifactCard {
    pub kind: &'static str,
    pub at: String,
    pub owner: String,
    pub preview: String,
    pub reference: ArtifactsPopupRef,
}

/// What a card says.
pub struct Card {
    pub kind: Seq<char>,
    pub at: Seq<char>,
    pub owner: Seq<char>,
    pub preview: Seq<char>,
    pub reference: Reference,
}

impl View for ArtifactCard {
    type V = Card;

    open spec fn view(&self) -> Card {
        Card {
            kind: self.kind@,
            at: self.at@,
            owner: self.owner@,
            preview: self.preview@,
            reference: self.reference@,
        }
    }
}

/// What cards say.
pub open spec fn cards(v: Seq<ArtifactCard>) -> Seq<Card> {
    Seq::new(v.len(), |i: int| v[i]@)
}

pub proof fn cards_push(v: Seq<ArtifactCard>, c: ArtifactCard)
    ensures
        cards(v.push(c)) == cards(v).push(c@),
{
    assert(cards(v.push(c)) =~= cards(v).push(c@));
}

pub proof fn cards_add(a: Seq<ArtifactCard>, b: Seq<ArtifactCard>)
    ensures
        cards(a + b) == cards(a) + cards(b),
{
    assert(cards(a + b) =~= cards(a) + cards(b));
}

/// The last `n` items, in their order.
pub open spec fn last_few<A>(s: Seq<A>, n: int) -> Seq<A> {
    if s.len() > n {
        s.subrange(s.len() - n, s.len() as int)
    } else {
        s
    }
}

/// How the messages of a context become cards.
pub struct CardRules {
    /// Who wrote the replies, where that is the same for all.
    pub owner: Option<String>,
    /// The messages come from a saved run.
    pub persisted: bool,
    /// The plan and the report of the swarm, where they are told apart.
    pub plan: Option<usize>,
    pub report: Option<usize>,
    pub tell_plans: bool,
    pub preview_chars: usize,
}

/// How the messages of a context become cards, as texts.
pub struct Rules {
    pub owner: Option<Seq<char>>,
    pub persisted: bool,
    pub plan: Option<usize>,
    pub report: Option<usize>,
    pub tell_plans: bool,
    pub preview_chars: int,
}

impl View for CardRules {
    type V = Rules;

    open spec fn view(&self) -> Rules {
        Rules {
            owner: text::opt_text(self.owner),
            persisted: self.persisted,
            plan: self.plan,
            report: self.report,
            tell_plans: self.tell_plans,
            preview_chars: self.preview_chars as int,
        }
    }
}

pub open spec fn message_reference(rules: Rules, messages: Seq<AgentMessage>, idx: usize) -> Reference {
    if rules.persisted {
        Reference::PersistedMessage { message: messages[idx as int] }
    } else {
        Reference::Message { idx }
    }
}

pub open spec fn prompt_card(rules: Rules, messages: Seq<AgentMessage>, idx: usize) -> Card {
    Card {
        kind: "PROMPT"@,
        at: messages[idx as int].at@,
        owner: "You"@,
        preview: previews::preview(messages[idx as int].text@, rules.preview_chars),
        reference: message_reference(rules, messages, idx),
    }
}

pub open spec fn reply_kind(rules: Rules, message: AgentMessage, idx: usize) -> Seq<char> {
    let kind: Option<Seq<char>> = text::opt_text(message.kind);
    if kind == Some("synth"@) || rules.report == Some(idx) {
        "SYNTH"@
    } else if rules.tell_plans && (kind == Some("plan"@) || rules.plan == Some(idx)) {
        "PLAN"@
    } else {
        "REPLY"@
    }
}

pub open spec fn reply_card(rules: Rules, messages: Seq<AgentMessage>, idx: usize) -> Card {
    let message: AgentMessage = messages[idx as int];
    Card {
        kind: reply_kind(rules, message, idx),
        at: message.at@,
        owner: match rules.owner {
            Some(o) => o,
            None => match message.agent_id {
                Some(a) => a@,
                None => "agent"@,
            },
        },
        preview: previews::preview(message.text@, rules.preview_chars),
        reference: message_reference(rules, messages, idx),
    }
}

/// The cards of a prompt and its last replies.
pub open spec fn group_cards(
    rules: Rules,
    messages: Seq<AgentMessage>,
    group: (Option<usize>, Seq<usize>),
) -> Seq<Card> {
    let shown: Seq<usize> = last_few(group.1, 48);
    (match group.0 {
        Some(p) => seq![prompt_card(rules, messages, p)],
        None => Seq::empty(),
    }) + Seq::new(shown.len(), |i: int| reply_card(rules, messages, shown[i]))
}

pub open spec fn groups_cards(
    rules: Rules,
    messages: Seq<AgentMessage>,
    groups: Seq<(Option<usize>, Seq<usize>)>,
    n: int,
) -> Seq<Card>
    decreases n,
{
    if n <= 0 {
        Seq::empty()
    } else {
        groups_cards(rules, messages, groups, n - 1) + group_cards(rules, messages, groups[n - 1])
    }
}

/// The cards of messages, given which of them are prompts and which replies.
pub open spec fn thread_cards(
    rules: Rules,
    messages: Seq<AgentMessage>,
    prompts: Seq<usize>,
    replies: Seq<usize>,
    hints: Seq<Option<usize>>,
) -> Seq<Card> {
    let groups: Seq<(Option<usize>, Seq<usize>)> = grouping::groups(prompts, replies, hints);
    groups_cards(rules, messages, groups, groups.len() as int)
}

fn is_place(o: Option<usize>, i: usize) -> (r: bool)
    ensures
        r == (o == Some(i)),
{
    match o {
        Some(k) => k == i,
        None => false,
    }
}

fn reference_of(rules: &CardRules, messages: &Vec<AgentMessage>, idx: usize) -> (r:
    ArtifactsPopupRef)
    requires
        idx < messages@.len(),
    ensures
        r@ == message_reference(rules@, messages@, idx),
{
    if rules.persisted {
        ArtifactsPopupRef::PersistedMessage { message: messages[idx].copy() }
    } else {
        ArtifactsPopupRef::Message { idx }
    }
}

fn prompt_card_of(rules: &CardRules, messages: &Vec<AgentMessage>, idx: usize) -> (r: ArtifactCard)
    requires
        idx < messages@.len(),
    ensures
        r@ == prompt_card(rules@, messages@, idx),
{
    ArtifactCard {
        kind: "PROMPT",
        at: messages[idx].at.clone(),
        owner: text::copy("You"),
        preview: previews::summarize_text_preview(
            messages[idx].text.as_str(),
            rules.preview_chars,
        ),
        reference: reference_of(rules, messages, idx),
    }
}

fn reply_card_of(rules: &CardRules, messages: &Vec<AgentMessage>, idx: usize) -> (r: ArtifactCard)
    requires
        idx < messages@.len(),
    ensures
        r@ == reply_card(rules@, messages@, idx),
{
    let message: &AgentMessage = &messages[idx];
    let kind: &'static str = if text::opt_str_eq(&message.kind, "synth") || is_place(
        rules.report,
        idx,
    ) {
        "SYNTH"
    } else if rules.tell_plans && (text::opt_str_eq(&message.kind, "plan") || is_place(
        rules.plan,
        idx,
    )) {
        "PLAN"
    } else {
        "REPLY"
    };
    let owner: String = match &rules.owner {
        Some(o) => o.clone(),
        None => match &message.agent_id {
            Some(a) => a.clone(),
            None => text::copy("agent"),
        },
    };
    ArtifactCard {
        kind,
        at: message.at.clone(),
        owner,
        preview: previews::summarize_text_preview(message.text.as_str(), rules.preview_chars),
        reference: reference_of(rules, messages, idx),
    }
}

/// Whether all places lie among the messages.
pub open spec fn places_in(places: Seq<usize>, len: nat) -> bool {
    forall|i: int| 0 <= i < places.len() ==> (#[trigger] places[i]) < len
}

proof fn groups_lie_in(
    prompts: Seq<usize>,
    replies: Seq<usize>,
    hints: Seq<Option<usize>>,
    len: nat,
    g: int,
)
    requires
        places_in(prompts, len),
        places_in(replies, len),
        0 <= g < grouping::groups(prompts, replies, hints).len(),
    ensures
        ({
            let group: (Option<usize>, Seq<usize>) = grouping::groups(prompts, replies, hints)[g];
            &&& group.0 matches Some(p) ==> p < len
            &&& places_in(group.1, len)
        }),
{
    let all: Seq<(Option<usize>, Seq<usize>)> = grouping::groups(prompts, replies, hints);
    let before: int = all.len() - prompts.len();
    let place: Option<int> = if g < before {
        None
    } else {
        Some(g - before)
    };
    let meets = grouping::answers(prompts, replies, hints, place);
    counting::picked_are_in_order(replies.len() as int, meets);
    let places: Seq<int> = counting::picked(replies.len() as int, meets);
    if g >= before {
        assert(prompts[g - before] < len);
    }
    assert forall|i: int| 0 <= i < all[g].1.len() implies (#[trigger] all[g].1[i]) < len by {
        assert(all[g].1[i] == replies[places[i]]);
    }
}

/// The cards of messages, given which of them are prompts and which replies.
pub fn thread_cards_of(
    rules: &CardRules,
    messages: &Vec<AgentMessage>,
    prompts: &Vec<usize>,
    replies: &Vec<usize>,
    hints: &Vec<Option<usize>>,
) -> (r: Vec<ArtifactCard>)
    requires
        places_in(prompts@, messages@.len()),
        places_in(replies@, messages@.len()),
    ensures
        cards(r@) == thread_cards(rules@, messages@, prompts@, replies@, hints@),
{
    let groups: Vec<(Option<usize>, Vec<usize>)> =
        grouping::group_replies_under_prompts_with_hints(prompts, replies, hints);
    let ghost all: Seq<(Option<usize>, Seq<usize>)> = grouping::groups(
        prompts@,
        replies@,
        hints@,
    );
    let mut out: Vec<ArtifactCard> = Vec::new();
    let mut g: usize = 0;
    assert(cards(out@) =~= groups_cards(rules@, messages@, all, 0));
    while g < groups.len()
        invariant
            g <= groups@.len(),
            places_in(prompts@, messages@.len()),
            places_in(replies@, messages@.len()),
            all == grouping::groups(prompts@, replies@, hints@),
            grouping::view_groups(groups@) == all,
            cards(out@) == groups_cards(rules@, messages@, all, g as int),
        decreases groups@.len() - g,
    {
        proof {
            groups_lie_in(prompts@, replies@, hints@, messages@.len(), g as int);
        }
        let group: &(Option<usize>, Vec<usize>) = &groups[g];
        assert((group.0, group.1@) == all[g as int]);
        let ghost before: Seq<Card> = cards(out@);
        if let Some(p) = group.0 {
            let c: ArtifactCard = prompt_card_of(rules, messages, p);
            proof {
                cards_push(out@, c);
            }
            out.push(c);
        }
        let ghost head: Seq<Card> = match all[g as int].0 {
            Some(p) => seq![prompt_card(rules@, messages@, p)],
            None => Seq::empty(),
        };
        assert(cards(out@) =~= before + head);
        let ghost shown: Seq<usize> = last_few(group.1@, 48);
        let ghost list: Seq<Card> = Seq::new(
            shown.len(),
            |i: int| reply_card(rules@, messages@, shown[i]),
        );
        let from: usize = text::minus(group.1.len(), 48);
        let mut i: usize = from;
        assert(before + head + list.take(0) =~= before + head);
        while i < group.1.len()
            invariant
                from <= i <= group.1@.len(),
                from == text::monus(group.1@.len() as int, 48),
                places_in(group.1@, messages@.len()),
                shown == last_few(group.1@, 48),
                list == Seq::new(shown.len(), |i: int| reply_card(rules@, messages@, shown[i])),
                cards(out@) == before + head + list.take(i - from),
            decreases group.1@.len() - i,
        {
            let c: ArtifactCard = reply_card_of(rules, messages, group.1[i]);
            proof {
                cards_push(out@, c);
                assert(shown[i - from] == group.1@[i as int]);
            }
            out.push(c);
            i += 1;
            assert(before + head + list.take(i - from) =~= (before + head + list.take(
                i - from - 1,
            )).push(c@));
        }
        assert(list.take(i - from) =~= list);
        assert(before + head + list =~= before + (head + list));
        g += 1;
    }
    out
}

/// Whether a message belongs to the thread of a mission: not what the swarm tells of itself, nor
/// what an agent sent to everybody.
pub open spec fn in_mission(messages: Seq<AgentMessage>, id: Seq<char>, k: int) -> bool {
    let m: AgentMessage = messages[k];
    text::opt_text(m.mission_id) == Some(id) && text::opt_text(m.agent_id) != Some("swarm"@) && !(
    m.broadcast && m.agent_id is Some)
}

/// Whether `id` is the agent or a chat copy of it.
pub open spec fn own_or_copy(st: AppState, id: Seq<char>, agent: Seq<char>) -> bool {
    id == agent || st.agents.chat_clones.base(id) == Some(agent)
}

fn is_own_or_copy(st: &AppState, id: &str, agent: &str) -> (r: bool)
    ensures
        r == own_or_copy(*st, id@, agent@),
{
    text::str_eq(id, agent) || (match st.agents.chat_clones.base_of(id) {
        Some(b) => text::str_eq(b, agent),
        None => false,
    })
}

/// The messages of the user in a context.
pub open spec fn mission_prompts(st: AppState, id: Seq<char>) -> spec_fn(int) -> bool {
    |k: int| in_mission(st.agents.messages@, id, k) && st.agents.messages@[k].agent_id is None
}

pub open spec fn mission_replies(st: AppState, id: Seq<char>) -> spec_fn(int) -> bool {
    |k: int| in_mission(st.agents.messages@, id, k) && st.agents.messages@[k].agent_id is Some
}

pub open spec fn ad_hoc_prompts(st: AppState) -> spec_fn(int) -> bool {
    |k: int|
        st.agents.messages@[k].mission_id is None && st.agents.messages@[k].agent_id is None
}

pub open spec fn ad_hoc_replies(st: AppState, agent: Seq<char>) -> spec_fn(int) -> bool {
    |k: int|
        st.agents.messages@[k].mission_id is None && (match st.agents.messages@[k].agent_id {
            Some(a) => own_or_copy(st, a@, agent),
            None => false,
        })
}

/// Places as machine numbers.
pub open spec fn places(v: Seq<int>) -> Seq<usize> {
    Seq::new(v.len(), |i: int| v[i] as usize)
}

/// The prompts that replies name.
pub open spec fn hints(messages: Seq<AgentMessage>, replies: Seq<usize>) -> Seq<Option<usize>> {
    Seq::new(replies.len(), |i: int| messages[replies[i] as int].prompt_msg_idx)
}

pub proof fn places_next(n: int, meets: spec_fn(int) -> bool)
    requires
        0 <= n,
    ensures
        places(counting::picked(n + 1, meets)) == (if meets(n) {
            places(counting::picked(n, meets)).push(n as usize)
        } else {
            places(counting::picked(n, meets))
        }),
        places(counting::picked(0, meets)) == Seq::<usize>::empty(),
{
    assert(places(counting::picked(n + 1, meets)) =~= (if meets(n) {
        places(counting::picked(n, meets)).push(n as usize)
    } else {
        places(counting::picked(n, meets))
    }));
    assert(places(counting::picked(0, meets)) =~= Seq::<usize>::empty());
}

pub open spec fn place_list(len: int, meets: spec_fn(int) -> bool) -> Seq<usize> {
    places(counting::picked(len, meets))
}

/// The rules for the messages of the running context.
pub open spec fn live_rules(owner: Option<Seq<char>>, preview_chars: int) -> Rules {
    Rules {
        owner,
        persisted: false,
        plan: None,
        report: None,
        tell_plans: false,
        preview_chars,
    }
}

/// The rules for the messages of a saved run.
pub open spec fn saved_rules(
    owner: Option<Seq<char>>,
    plan: Option<usize>,
    report: Option<usize>,
    tell_plans: bool,
    preview_chars: int,
) -> Rules {
    Rules { owner, persisted: true, plan, report, tell_plans, preview_chars }
}

pub open spec fn patch_card(patches: Seq<Patch>, idx: usize) -> Card {
    Card {
        kind: "PATCH"@,
        at: patches[idx as int].status_label@,
        owner: patches[idx as int].agent_id@,
        preview: patches[idx as int].title@,
        reference: Reference::Patch { idx },
    }
}

pub open spec fn evidence_card(evidence: Seq<EvidenceItem>, idx: usize) -> Card {
    Card {
        kind: "EVIDENCE"@,
        at: Seq::empty(),
        owner: match evidence[idx as int].agent_id {
            Some(a) => a@,
            None => "system"@,
        },
        preview: evidence[idx as int].title@,
        reference: Reference::Evidence { idx },
    }
}

/// The last 24 changes, the latest first.
pub open spec fn patch_cards(patches: Seq<Patch>, found: Seq<usize>) -> Seq<Card> {
    let shown: Seq<usize> = last_few(found, 24);
    Seq::new(shown.len(), |i: int| patch_card(patches, shown[shown.len() - 1 - i]))
}

/// The last 24 findings, the latest first.
pub open spec fn evidence_cards(evidence: Seq<EvidenceItem>, found: Seq<usize>) -> Seq<Card> {
    let shown: Seq<usize> = last_few(found, 24);
    Seq::new(shown.len(), |i: int| evidence_card(evidence, shown[shown.len() - 1 - i]))
}

fn push_patch_cards(out: &mut Vec<ArtifactCard>, patches: &Vec<Patch>, found: &Vec<usize>)
    requires
        places_in(found@, patches@.len()),
    ensures
        cards(final(out)@) == cards(old(out)@) + patch_cards(patches@, found@),
{
    let ghost before: Seq<Card> = cards(out@);
    let ghost all: Seq<Card> = patch_cards(patches@, found@);
    let ghost shown: Seq<usize> = last_few(found@, 24);
    let total: usize = found.len();
    let count: usize = text::min_of(total, 24);
    let mut i: usize = 0;
    assert(before + all.take(0) =~= before);
    while i < count
        invariant
            i <= count <= total,
            total == found@.len(),
            count == shown.len(),
            shown == last_few(found@, 24),
            places_in(found@, patches@.len()),
            all == patch_cards(patches@, found@),
            cards(out@) == before + all.take(i as int),
        decreases count - i,
    {
        let idx: usize = found[total - 1 - i];
        assert(idx == shown[shown.len() - 1 - i]);
        let c: ArtifactCard = ArtifactCard {
            kind: "PATCH",
            at: patches[idx].status_label.clone(),
            owner: patches[idx].agent_id.clone(),
            preview: patches[idx].title.clone(),
            reference: ArtifactsPopupRef::Patch { idx },
        };
        proof {
            cards_push(out@, c);
        }
        out.push(c);
        i += 1;
        assert(before + all.take(i as int) =~= (before + all.take(i - 1)).push(c@));
    }
    assert(all.take(i as int) =~= all);
}

fn push_evidence_cards(
    out: &mut Vec<ArtifactCard>,
    evidence: &Vec<EvidenceItem>,
    found: &Vec<usize>,
)
    requires
        places_in(found@, evidence@.len()),
    ensures
        cards(final(out)@) == cards(old(out)@) + evidence_cards(evidence@, found@),
{
    let ghost before: Seq<Card> = cards(out@);
    let ghost all: Seq<Card> = evidence_cards(evidence@, found@);
    let ghost shown: Seq<usize> = last_few(found@, 24);
    let total: usize = found.len();
    let count: usize = text::min_of(total, 24);
    let mut i: usize = 0;
    assert(before + all.take(0) =~= before);
    while i < count
        invariant
            i <= count <= total,
            total == found@.len(),
            count == shown.len(),
            shown == last_few(found@, 24),
            places_in(found@, evidence@.len()),
            all == evidence_cards(evidence@, found@),
            cards(out@) == before + all.take(i as int),
        decreases count - i,
    {
        let idx: usize = found[total - 1 - i];
        assert(idx == shown[shown.len() - 1 - i]);
        let nothing: String = String::new();
        assert(nothing@ =~= Seq::<char>::empty());
        let c: ArtifactCard = ArtifactCard {
            kind: "EVIDENCE",
            at: nothing,
            owner: match &evidence[idx].agent_id {
                Some(a) => a.clone(),
                None => text::copy("system"),
            },
            preview: evidence[idx].title.clone(),
            reference: ArtifactsPopupRef::Evidence { idx },
        };
        proof {
            cards_push(out@, c);
        }
        out.push(c);
        i += 1;
        assert(before + all.take(i as int) =~= (before + all.take(i - 1)).push(c@));
    }
    assert(all.take(i as int) =~= all);
}

/// The changes of a mission.
pub open spec fn mission_patches(st: AppState, id: Seq<char>) -> spec_fn(int) -> bool {
    |k: int| text::opt_text(st.agents.patches@[k].mission_id) == Some(id)
}

pub open spec fn mission_evidence(st: AppState, id: Seq<char>) -> spec_fn(int) -> bool {
    |k: int| text::opt_text(st.agents.evidence@[k].mission_id) == Some(id)
}

/// The changes of an agent outside of missions.
pub open spec fn ad_hoc_patches(st: AppState, agent: Seq<char>) -> spec_fn(int) -> bool {
    |k: int|
        st.agents.patches@[k].mission_id is None && own_or_copy(
            st,
            st.agents.patches@[k].agent_id@,
            agent,
        )
}

/// The cards of a mission: its thread, then its changes and its findings.
pub open spec fn mission_cards(st: AppState, id: Seq<char>, preview: int) -> Seq<Card> {
    let messages: Seq<AgentMessage> = st.agents.messages@;
    let prompts: Seq<usize> = place_list(messages.len() as int, mission_prompts(st, id));
    let replies: Seq<usize> = place_list(messages.len() as int, mission_replies(st, id));
    thread_cards(
        live_rules(None, preview),
        messages,
        prompts,
        replies,
        hints(messages, replies),
    ) + patch_cards(
        st.agents.patches@,
        place_list(st.agents.patches@.len() as int, mission_patches(st, id)),
    ) + evidence_cards(
        st.agents.evidence@,
        place_list(st.agents.evidence@.len() as int, mission_evidence(st, id)),
    )
}

/// The cards of the chat with an agent: its thread, then its changes.
pub open spec fn ad_hoc_cards(st: AppState, agent: Seq<char>, preview: int) -> Seq<Card> {
    let messages: Seq<AgentMessage> = st.agents.messages@;
    let prompts: Seq<usize> = place_list(messages.len() as int, ad_hoc_prompts(st));
    let replies: Seq<usize> = place_list(messages.len() as int, ad_hoc_replies(st, agent));
    thread_cards(
        live_rules(Some(agent), preview),
        messages,
        prompts,
        replies,
        hints(messages, replies),
    ) + patch_cards(
        st.agents.patches@,
        place_list(st.agents.patches@.len() as int, ad_hoc_patches(st, agent)),
    )
}

/// Prompts and replies of a thread with the prompts that the replies name.
struct Thread {
    prompts: Vec<usize>,
    replies: Vec<usize>,
    hints: Vec<Option<usize>>,
}

fn mission_thread(st: &AppState, id: &str) -> (r: Thread)
    ensures
        ({
            let messages: Seq<AgentMessage> = st.agents.messages@;
            &&& r.prompts@ == place_list(messages.len() as int, mission_prompts(*st, id@))
            &&& r.replies@ == place_list(messages.len() as int, mission_replies(*st, id@))
            &&& r.hints@ == hints(messages, r.replies@)
            &&& places_in(r.prompts@, messages.len())
            &&& places_in(r.replies@, messages.len())
        }),
{
    let messages: &Vec<AgentMessage> = &st.agents.messages;
    let ghost asks = mission_prompts(*st, id@);
    let ghost tells = mission_replies(*st, id@);
    let mut prompts: Vec<usize> = Vec::new();
    let mut replies: Vec<usize> = Vec::new();
    let mut named: Vec<Option<usize>> = Vec::new();
    let mut i: usize = 0;
    proof {
        places_next(0, asks);
        places_next(0, tells);
        assert(named@ =~= hints(messages@, replies@));
    }
    while i < messages.len()
        invariant
            i <= messages@.len(),
            messages@ == st.agents.messages@,
            asks == mission_prompts(*st, id@),
            tells == mission_replies(*st, id@),
            prompts@ == place_list(i as int, asks),
            replies@ == place_list(i as int, tells),
            named@ == hints(messages@, replies@),
            places_in(prompts@, messages@.len()),
            places_in(replies@, messages@.len()),
        decreases messages@.len() - i,
    {
        let m: &AgentMessage = &messages[i];
        let inside: bool = text::opt_str_eq(&m.mission_id, id) && !text::opt_str_eq(
            &m.agent_id,
            "swarm",
        ) && !(m.broadcast && m.agent_id.is_some());
        proof {
            places_next(i as int, asks);
            places_next(i as int, tells);
            assert(inside == in_mission(messages@, id@, i as int));
        }
        if inside {
            if m.agent_id.is_none() {
                prompts.push(i);
            } else {
                let ghost before: Seq<usize> = replies@;
                replies.push(i);
                named.push(m.prompt_msg_idx);
                assert(hints(messages@, replies@) =~= hints(messages@, before).push(
                    m.prompt_msg_idx,
                ));
            }
        }
        i += 1;
    }
    Thread { prompts, replies, hints: named }
}

fn ad_hoc_thread(st: &AppState, agent: &str) -> (r: Thread)
    ensures
        ({
            let messages: Seq<AgentMessage> = st.agents.messages@;
            &&& r.prompts@ == place_list(messages.len() as int, ad_hoc_prompts(*st))
            &&& r.replies@ == place_list(messages.len() as int, ad_hoc_replies(*st, agent@))
            &&& r.hints@ == hints(messages, r.replies@)
            &&& places_in(r.prompts@, messages.len())
            &&& places_in(r.replies@, messages.len())
        }),
{
    let messages: &Vec<AgentMessage> = &st.agents.messages;
    let ghost asks = ad_hoc_prompts(*st);
    let ghost tells = ad_hoc_replies(*st, agent@);
    let mut prompts: Vec<usize> = Vec::new();
    let mut replies: Vec<usize> = Vec::new();
    let mut named: Vec<Option<usize>> = Vec::new();
    let mut i: usize = 0;
    proof {
        places_next(0, asks);
        places_next(0, tells);
        assert(named@ =~= hints(messages@, replies@));
    }
    while i < messages.len()
        invariant
            i <= messages@.len(),
            messages@ == st.agents.messages@,
            asks == ad_hoc_prompts(*st),
            tells == ad_hoc_replies(*st, agent@),
            prompts@ == place_list(i as int, asks),
            replies@ == place_list(i as int, tells),
            named@ == hints(messages@, replies@),
            places_in(prompts@, messages@.len()),
            places_in(replies@, messages@.len()),
        decreases messages@.len() - i,
    {
        let m: &AgentMessage = &messages[i];
        proof {
            places_next(i as int, asks);
            places_next(i as int, tells);
        }
        if m.mission_id.is_none() {
            match &m.agent_id {
                None => {
                    prompts.push(i);
                },
                Some(a) => {
                    if is_own_or_copy(st, a.as_str(), agent) {
                        let ghost before: Seq<usize> = replies@;
                        replies.push(i);
                        named.push(m.prompt_msg_idx);
                        assert(hints(messages@, replies@) =~= hints(messages@, before).push(
                            m.prompt_msg_idx,
                        ));
                    }
                },
            }
        }
        i += 1;
    }
    Thread { prompts, replies, hints: named }
}

fn live_rules_of(owner: Option<String>, preview_chars: usize) -> (r: CardRules)
    ensures
        r@ == live_rules(text::opt_text(owner), preview_chars as int),
{
    CardRules {
        owner,
        persisted: false,
        plan: None,
        report: None,
        tell_plans: false,
        preview_chars,
    }
}

pub fn build_mission_cards(st: &AppState, id: &str, preview_chars: usize) -> (r: Vec<ArtifactCard>)
    ensures
        cards(r@) == mission_cards(*st, id@, preview_chars as int),
{
    let thread: Thread = mission_thread(st, id);
    let rules: CardRules = live_rules_of(None, preview_chars);
    let mut out: Vec<ArtifactCard> = thread_cards_of(
        &rules,
        &st.agents.messages,
        &thread.prompts,
        &thread.replies,
        &thread.hints,
    );
    let ghost changed = mission_patches(*st, id@);
    let mut patches: Vec<usize> = Vec::new();
    let mut i: usize = 0;
    proof {
        places_next(0, changed);
    }
    while i < st.agents.patches.len()
        invariant
            i <= st.agents.patches@.len(),
            changed == mission_patches(*st, id@),
            patches@ == place_list(i as int, changed),
            places_in(patches@, st.agents.patches@.len()),
        decreases st.agents.patches@.len() - i,
    {
        proof {
            places_next(i as int, changed);
        }
        if text::opt_str_eq(&st.agents.patches[i].mission_id, id) {
            patches.push(i);
        }
        i += 1;
    }
    push_patch_cards(&mut out, &st.agents.patches, &patches);
    let ghost noted = mission_evidence(*st, id@);
    let mut evidence: Vec<usize> = Vec::new();
    i = 0;
    proof {
        places_next(0, noted);
    }
    while i < st.agents.evidence.len()
        invariant
            i <= st.agents.evidence@.len(),
            noted == mission_evidence(*st, id@),
            evidence@ == place_list(i as int, noted),
            places_in(evidence@, st.agents.evidence@.len()),
        decreases st.agents.evidence@.len() - i,
    {
        proof {
            places_next(i as int, noted);
        }
        if text::opt_str_eq(&st.agents.evidence[i].mission_id, id) {
            evidence.push(i);
        }
        i += 1;
    }
    push_evidence_cards(&mut out, &st.agents.evidence, &evidence);
    out
}

pub fn build_ad_hoc_cards(st: &AppState, agent: &str, preview_chars: usize) -> (r: Vec<
    ArtifactCard,
>)
    ensures
        cards(r@) == ad_hoc_cards(*st, agent@, preview_chars as int),
{
    let thread: Thread = ad_hoc_thread(st, agent);
    let rules: CardRules = live_rules_of(Some(text::copy(agent)), preview_chars);
    let mut out: Vec<ArtifactCard> = thread_cards_of(
        &rules,
        &st.agents.messages,
        &thread.prompts,
        &thread.replies,
        &thread.hints,
    );
    let ghost changed = ad_hoc_patches(*st, agent@);
    let mut patches: Vec<usize> = Vec::new();
    let mut i: usize = 0;
    proof {
        places_next(0, changed);
    }
    while i < st.agents.patches.len()
        invariant
            i <= st.agents.patches@.len(),
            changed == ad_hoc_patches(*st, agent@),
            patches@ == place_list(i as int, changed),
            places_in(patches@, st.agents.patches@.len()),
        decreases st.agents.patches@.len() - i,
    {
        proof {
            places_next(i as int, changed);
        }
        if st.agents.patches[i].mission_id.is_none() && is_own_or_copy(
            st,
            st.agents.patches[i].agent_id.as_str(),
            agent,
        ) {
            patches.push(i);
        }
        i += 1;
    }
    push_patch_cards(&mut out, &st.agents.patches, &patches);
    out
}

} // verus!
