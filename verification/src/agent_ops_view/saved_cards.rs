//! The cards of saved runs.

use vstd::prelude::*;

use crate::agent_ops_view::cards;
use crate::agent_ops_view::cards::ArtifactCard;
use crate::agent_ops_view::cards::ArtifactsPopupRef;
use crate::agent_ops_view::cards::Card;
use crate::agent_ops_view::cards::CardRules;
use crate::agent_ops_view::cards::Reference;
use crate::agent_ops_view::history;
use crate::state::AgentMessage;
use crate::state::EvidenceItem;
use crate::state::PersistedArtifactsRun;
use crate::state::PersistedPatchRecord;
use crate::text;

verus! {

/// The messages of the user among those that meet a condition.
pub open spec fn asked(run: PersistedArtifactsRun, meets: spec_fn(int) -> bool) -> spec_fn(
    int,
) -> bool {
    |k: int| meets(k) && run.messages@[k].agent_id is None
}

/// The messages of agents among those that meet a condition.
pub open spec fn told(run: PersistedArtifactsRun, meets: spec_fn(int) -> bool) -> spec_fn(
    int,
) -> bool {
    |k: int| meets(k) && run.messages@[k].agent_id is Some
}

/// A change of a saved run; `dir` is where its file is kept.
pub open spec fn patch_card(patch: PersistedPatchRecord, dir: Seq<char>) -> Card {
    Card {
        kind: "PATCH"@,
        at: if text::trimmed(patch.status@).len() == 0 {
            "--"@
        } else {
            patch.status@
        },
        owner: patch.agent_id@,
        preview: patch.title@,
        reference: Reference::PersistedPatch {
            patch,
            path: Some(dir + history::sanitized(patch.id@) + ".diff"@),
        },
    }
}

pub open spec fn evidence_card(item: EvidenceItem) -> Card {
    Card {
        kind: "EVIDENCE"@,
        at: Seq::empty(),
        owner: match item.agent_id {
            Some(a) => a@,
            None => "system"@,
        },
        preview: item.title@,
        reference: Reference::PersistedEvidence { item },
    }
}

/// The last 24 changes of a saved run, the latest first.
pub open spec fn patch_cards(run: PersistedArtifactsRun, found: Seq<usize>, dir: Seq<char>) -> Seq<
    Card,
> {
    let shown: Seq<usize> = cards::last_few(found, 24);
    Seq::new(
        shown.len(),
        |i: int| patch_card(run.patches@[shown[shown.len() - 1 - i] as int], dir),
    )
}

/// The last 24 findings of a saved run, the latest first.
pub open spec fn evidence_cards(run: PersistedArtifactsRun, found: Seq<usize>) -> Seq<Card> {
    let shown: Seq<usize> = cards::last_few(found, 24);
    Seq::new(
        shown.len(),
        |i: int| evidence_card(run.evidence@[shown[shown.len() - 1 - i] as int]),
    )
}

fn push_patches(
    out: &mut Vec<ArtifactCard>,
    run: &PersistedArtifactsRun,
    found: &Vec<usize>,
    dir: &str,
)
    requires
        cards::places_in(found@, run.patches@.len()),
    ensures
        cards::cards(final(out)@) == cards::cards(old(out)@) + patch_cards(*run, found@, dir@),
{
    let ghost before: Seq<Card> = cards::cards(out@);
    let ghost all: Seq<Card> = patch_cards(*run, found@, dir@);
    let ghost shown: Seq<usize> = cards::last_few(found@, 24);
    let total: usize = found.len();
    let count: usize = text::min_of(total, 24);
    let mut i: usize = 0;
    assert(before + all.take(0) =~= before);
    while i < count
        invariant
            i <= count <= total,
            total == found@.len(),
            count == shown.len(),
            shown == cards::last_few(found@, 24),
            cards::places_in(found@, run.patches@.len()),
            all == patch_cards(*run, found@, dir@),
            cards::cards(out@) == before + all.take(i as int),
        decreases count - i,
    {
        let idx: usize = found[total - 1 - i];
        assert(idx == shown[shown.len() - 1 - i]);
        let patch: &PersistedPatchRecord = &run.patches[idx];
        let file: String = history::sanitize_artifact_path_segment(patch.id.as_str());
        let c: ArtifactCard = ArtifactCard {
            kind: "PATCH",
            at: if text::is_blank(patch.status.as_str()) {
                text::copy("--")
            } else {
                patch.status.clone()
            },
            owner: patch.agent_id.clone(),
            preview: patch.title.clone(),
            reference: ArtifactsPopupRef::PersistedPatch {
                path: Some(text::cat3(dir, file.as_str(), ".diff")),
                patch: patch.copy(),
            },
        };
        proof {
            cards::cards_push(out@, c);
        }
        out.push(c);
        i += 1;
        assert(before + all.take(i as int) =~= (before + all.take(i - 1)).push(c@));
    }
    assert(all.take(i as int) =~= all);
}

fn push_evidence(out: &mut Vec<ArtifactCard>, run: &PersistedArtifactsRun, found: &Vec<usize>)
    requires
        cards::places_in(found@, run.evidence@.len()),
    ensures
        cards::cards(final(out)@) == cards::cards(old(out)@) + evidence_cards(*run, found@),
{
    let ghost before: Seq<Card> = cards::cards(out@);
    let ghost all: Seq<Card> = evidence_cards(*run, found@);
    let ghost shown: Seq<usize> = cards::last_few(found@, 24);
    let total: usize = found.len();
    let count: usize = text::min_of(total, 24);
    let mut i: usize = 0;
    assert(before + all.take(0) =~= before);
    while i < count
        invariant
            i <= count <= total,
            total == found@.len(),
            count == shown.len(),
            shown == cards::last_few(found@, 24),
            cards::places_in(found@, run.evidence@.len()),
            all == evidence_cards(*run, found@),
            cards::cards(out@) == before + all.take(i as int),
        decreases count - i,
    {
        let idx: usize = found[total - 1 - i];
        assert(idx == shown[shown.len() - 1 - i]);
        let item: &EvidenceItem = &run.evidence[idx];
        let nothing: String = String::new();
        assert(nothing@ =~= Seq::<char>::empty());
        let c: ArtifactCard = ArtifactCard {
            kind: "EVIDENCE",
            at: nothing,
            owner: match &item.agent_id {
                Some(a) => a.clone(),
                None => text::copy("system"),
            },
            preview: item.title.clone(),
            reference: ArtifactsPopupRef::PersistedEvidence { item: item.copy() },
        };
        proof {
            cards::cards_push(out@, c);
        }
        out.push(c);
        i += 1;
        assert(before + all.take(i as int) =~= (before + all.take(i - 1)).push(c@));
    }
    assert(all.take(i as int) =~= all);
}

/// The first message of `planner` in a mission, from place `i` on.
pub open spec fn first_in_mission(
    messages: Seq<AgentMessage>,
    mission: Seq<char>,
    planner: Seq<char>,
    i: int,
) -> Option<usize>
    decreases messages.len() - i,
{
    if i < 0 || i >= messages.len() {
        None
    } else if text::opt_text(messages[i].mission_id) == Some(mission) && text::opt_text(
        messages[i].agent_id,
    ) == Some(planner) {
        Some(i as usize)
    } else {
        first_in_mission(messages, mission, planner, i + 1)
    }
}

/// The last message of `planner` in a mission, among the first `n`.
pub open spec fn last_in_mission(
    messages: Seq<AgentMessage>,
    mission: Seq<char>,
    planner: Seq<char>,
    n: int,
) -> Option<usize>
    decreases n,
{
    if n <= 0 {
        None
    } else if text::opt_text(messages[n - 1].mission_id) == Some(mission) && text::opt_text(
        messages[n - 1].agent_id,
    ) == Some(planner) {
        Some((n - 1) as usize)
    } else {
        last_in_mission(messages, mission, planner, n - 1)
    }
}

/// The plan and the report of a swarm in the messages of a mission: the first and the last one of
/// its planner; where there is only one, it is the report.
pub open spec fn plan_and_report(run: PersistedArtifactsRun, mission: Seq<char>) -> (
    Option<usize>,
    Option<usize>,
) {
    if run.swarm && run.assigned_agents@.len() > 0 {
        let planner: Seq<char> = run.assigned_agents@[0]@;
        let plan: Option<usize> = first_in_mission(run.messages@, mission, planner, 0);
        let report: Option<usize> = last_in_mission(
            run.messages@,
            mission,
            planner,
            run.messages@.len() as int,
        );
        if plan == report {
            (None, report)
        } else {
            (plan, report)
        }
    } else {
        (None, None)
    }
}

fn find_plan_and_report(run: &PersistedArtifactsRun, mission: &str) -> (r: (
    Option<usize>,
    Option<usize>,
))
    ensures
        r == plan_and_report(*run, mission@),
{
    if !run.swarm || run.assigned_agents.len() == 0 {
        return (None, None);
    }
    let planner: &str = run.assigned_agents[0].as_str();
    let messages: &Vec<AgentMessage> = &run.messages;
    let mut plan: Option<usize> = None;
    let mut i: usize = 0;
    while i < messages.len() && plan.is_none()
        invariant
            i <= messages@.len(),
            first_in_mission(messages@, mission@, planner@, 0) == (if plan is Some {
                plan
            } else {
                first_in_mission(messages@, mission@, planner@, i as int)
            }),
        decreases messages@.len() - i,
    {
        if text::opt_str_eq(&messages[i].mission_id, mission) && text::opt_str_eq(
            &messages[i].agent_id,
            planner,
        ) {
            plan = Some(i);
        }
        i += 1;
    }
    let mut report: Option<usize> = None;
    let mut n: usize = messages.len();
    while n > 0 && report.is_none()
        invariant
            n <= messages@.len(),
            last_in_mission(messages@, mission@, planner@, messages@.len() as int) == (if report
                is Some {
                report
            } else {
                last_in_mission(messages@, mission@, planner@, n as int)
            }),
        decreases n,
    {
        if text::opt_str_eq(&messages[n - 1].mission_id, mission) && text::opt_str_eq(
            &messages[n - 1].agent_id,
            planner,
        ) {
            report = Some(n - 1);
        }
        n -= 1;
    }
    if plan == report {
        (None, report)
    } else {
        (plan, report)
    }
}

pub open spec fn mission_dir(id: Seq<char>) -> Seq<char> {
    ".nit/agents/runs/"@ + id + "/patches/"@
}

/// The cards of a mission in a saved run.
pub open spec fn mission_cards(run: PersistedArtifactsRun, id: Seq<char>, preview: int) -> Seq<
    Card,
> {
    let n: int = run.messages@.len() as int;
    let mine = history::mission_message(run, id);
    let (plan, report) = plan_and_report(run, id);
    cards::thread_cards(
        cards::saved_rules(None, plan, report, true, preview),
        run.messages@,
        cards::place_list(n, asked(run, mine)),
        cards::place_list(n, told(run, mine)),
        Seq::empty(),
    ) + patch_cards(
        run,
        cards::place_list(run.patches@.len() as int, history::mission_patch(run, id)),
        mission_dir(id),
    ) + evidence_cards(
        run,
        cards::place_list(run.evidence@.len() as int, history::mission_evidence(run, id)),
    )
}

/// The cards of the chat with an agent in a saved run.
pub open spec fn ad_hoc_cards(run: PersistedArtifactsRun, agent: Seq<char>, preview: int) -> Seq<
    Card,
> {
    let n: int = run.messages@.len() as int;
    let mine = history::ad_hoc_message(run, agent);
    cards::thread_cards(
        cards::saved_rules(Some(agent), None, None, false, preview),
        run.messages@,
        cards::place_list(n, asked(run, mine)),
        cards::place_list(n, told(run, mine)),
        Seq::empty(),
    ) + patch_cards(
        run,
        cards::place_list(run.patches@.len() as int, history::ad_hoc_patch(run, agent)),
        history::ad_hoc_root(agent) + "patches/"@,
    ) + evidence_cards(
        run,
        cards::place_list(run.evidence@.len() as int, history::ad_hoc_evidence(run, agent)),
    )
}

/// What of a saved run belongs to a context.
struct Found {
    prompts: Vec<usize>,
    replies: Vec<usize>,
    patches: Vec<usize>,
    evidence: Vec<usize>,
}

spec fn holds(
    f: Found,
    run: PersistedArtifactsRun,
    mine: spec_fn(int) -> bool,
    changed: spec_fn(int) -> bool,
    noted: spec_fn(int) -> bool,
) -> bool {
    &&& f.prompts@ == cards::place_list(run.messages@.len() as int, asked(run, mine))
    &&& f.replies@ == cards::place_list(run.messages@.len() as int, told(run, mine))
    &&& f.patches@ == cards::place_list(run.patches@.len() as int, changed)
    &&& f.evidence@ == cards::place_list(run.evidence@.len() as int, noted)
    &&& cards::places_in(f.prompts@, run.messages@.len())
    &&& cards::places_in(f.replies@, run.messages@.len())
    &&& cards::places_in(f.patches@, run.patches@.len())
    &&& cards::places_in(f.evidence@, run.evidence@.len())
}

fn find_mission(run: &PersistedArtifactsRun, id: &str) -> (r: Found)
    ensures
        holds(
            r,
            *run,
            history::mission_message(*run, id@),
            history::mission_patch(*run, id@),
            history::mission_evidence(*run, id@),
        ),
{
    let ghost asks = asked(*run, history::mission_message(*run, id@));
    let ghost tells = told(*run, history::mission_message(*run, id@));
    let ghost changed = history::mission_patch(*run, id@);
    let ghost noted = history::mission_evidence(*run, id@);
    proof {
        cards::places_next(0, asks);
        cards::places_next(0, tells);
        cards::places_next(0, changed);
        cards::places_next(0, noted);
    }
    let mut prompts: Vec<usize> = Vec::new();
    let mut replies: Vec<usize> = Vec::new();
    let mut i: usize = 0;
    while i < run.messages.len()
        invariant
            i <= run.messages@.len(),
            asks == asked(*run, history::mission_message(*run, id@)),
            tells == told(*run, history::mission_message(*run, id@)),
            prompts@ == cards::place_list(i as int, asks),
            replies@ == cards::place_list(i as int, tells),
            cards::places_in(prompts@, run.messages@.len()),
            cards::places_in(replies@, run.messages@.len()),
        decreases run.messages@.len() - i,
    {
        proof {
            cards::places_next(i as int, asks);
            cards::places_next(i as int, tells);
        }
        if text::opt_str_eq(&run.messages[i].mission_id, id) {
            if run.messages[i].agent_id.is_none() {
                prompts.push(i);
            } else {
                replies.push(i);
            }
        }
        i += 1;
    }
    let mut patches: Vec<usize> = Vec::new();
    i = 0;
    while i < run.patches.len()
        invariant
            i <= run.patches@.len(),
            changed == history::mission_patch(*run, id@),
            patches@ == cards::place_list(i as int, changed),
            cards::places_in(patches@, run.patches@.len()),
        decreases run.patches@.len() - i,
    {
        proof {
            cards::places_next(i as int, changed);
        }
        if text::opt_str_eq(&run.patches[i].mission_id, id) {
            patches.push(i);
        }
        i += 1;
    }
    let mut evidence: Vec<usize> = Vec::new();
    i = 0;
    while i < run.evidence.len()
        invariant
            i <= run.evidence@.len(),
            noted == history::mission_evidence(*run, id@),
            evidence@ == cards::place_list(i as int, noted),
            cards::places_in(evidence@, run.evidence@.len()),
        decreases run.evidence@.len() - i,
    {
        proof {
            cards::places_next(i as int, noted);
        }
        if text::opt_str_eq(&run.evidence[i].mission_id, id) {
            evidence.push(i);
        }
        i += 1;
    }
    Found { prompts, replies, patches, evidence }
}

fn find_ad_hoc(run: &PersistedArtifactsRun, agent: &str) -> (r: Found)
    ensures
        holds(
            r,
            *run,
            history::ad_hoc_message(*run, agent@),
            history::ad_hoc_patch(*run, agent@),
            history::ad_hoc_evidence(*run, agent@),
        ),
{
    let ghost asks = asked(*run, history::ad_hoc_message(*run, agent@));
    let ghost tells = told(*run, history::ad_hoc_message(*run, agent@));
    let ghost changed = history::ad_hoc_patch(*run, agent@);
    let ghost noted = history::ad_hoc_evidence(*run, agent@);
    proof {
        cards::places_next(0, asks);
        cards::places_next(0, tells);
        cards::places_next(0, changed);
        cards::places_next(0, noted);
    }
    let mut prompts: Vec<usize> = Vec::new();
    let mut replies: Vec<usize> = Vec::new();
    let mut i: usize = 0;
    while i < run.messages.len()
        invariant
            i <= run.messages@.len(),
            asks == asked(*run, history::ad_hoc_message(*run, agent@)),
            tells == told(*run, history::ad_hoc_message(*run, agent@)),
            prompts@ == cards::place_list(i as int, asks),
            replies@ == cards::place_list(i as int, tells),
            cards::places_in(prompts@, run.messages@.len()),
            cards::places_in(replies@, run.messages@.len()),
        decreases run.messages@.len() - i,
    {
        proof {
            cards::places_next(i as int, asks);
            cards::places_next(i as int, tells);
        }
        if run.messages[i].mission_id.is_none() {
            if run.messages[i].agent_id.is_none() {
                prompts.push(i);
            } else if text::opt_str_eq(&run.messages[i].agent_id, agent) {
                replies.push(i);
            }
        }
        i += 1;
    }
    let mut patches: Vec<usize> = Vec::new();
    i = 0;
    while i < run.patches.len()
        invariant
            i <= run.patches@.len(),
            changed == history::ad_hoc_patch(*run, agent@),
            patches@ == cards::place_list(i as int, changed),
            cards::places_in(patches@, run.patches@.len()),
        decreases run.patches@.len() - i,
    {
        proof {
            cards::places_next(i as int, changed);
        }
        if run.patches[i].mission_id.is_none() && text::str_eq(
            run.patches[i].agent_id.as_str(),
            agent,
        ) {
            patches.push(i);
        }
        i += 1;
    }
    let mut evidence: Vec<usize> = Vec::new();
    i = 0;
    while i < run.evidence.len()
        invariant
            i <= run.evidence@.len(),
            noted == history::ad_hoc_evidence(*run, agent@),
            evidence@ == cards::place_list(i as int, noted),
            cards::places_in(evidence@, run.evidence@.len()),
        decreases run.evidence@.len() - i,
    {
        proof {
            cards::places_next(i as int, noted);
        }
        if run.evidence[i].mission_id.is_none() && text::opt_str_eq(
            &run.evidence[i].agent_id,
            agent,
        ) {
            evidence.push(i);
        }
        i += 1;
    }
    Found { prompts, replies, patches, evidence }
}

pub fn build_persisted_mission_cards(
    run: &PersistedArtifactsRun,
    id: &str,
    preview_chars: usize,
) -> (r: Vec<ArtifactCard>)
    ensures
        cards::cards(r@) == mission_cards(*run, id@, preview_chars as int),
{
    let found: Found = find_mission(run, id);
    let (plan, report): (Option<usize>, Option<usize>) = find_plan_and_report(run, id);
    let rules: CardRules = CardRules {
        owner: None,
        persisted: true,
        plan,
        report,
        tell_plans: true,
        preview_chars,
    };
    let none: Vec<Option<usize>> = Vec::new();
    assert(none@ =~= Seq::<Option<usize>>::empty());
    let mut out: Vec<ArtifactCard> = cards::thread_cards_of(
        &rules,
        &run.messages,
        &found.prompts,
        &found.replies,
        &none,
    );
    let dir: String = text::cat3(".nit/agents/runs/", id, "/patches/");
    push_patches(&mut out, run, &found.patches, dir.as_str());
    push_evidence(&mut out, run, &found.evidence);
    out
}

pub fn build_persisted_ad_hoc_cards(
    run: &PersistedArtifactsRun,
    agent: &str,
    preview_chars: usize,
) -> (r: Vec<ArtifactCard>)
    ensures
        cards::cards(r@) == ad_hoc_cards(*run, agent@, preview_chars as int),
{
    let found: Found = find_ad_hoc(run, agent);
    let rules: CardRules = CardRules {
        owner: Some(text::copy(agent)),
        persisted: true,
        plan: None,
        report: None,
        tell_plans: false,
        preview_chars,
    };
    let none: Vec<Option<usize>> = Vec::new();
    assert(none@ =~= Seq::<Option<usize>>::empty());
    let mut out: Vec<ArtifactCard> = cards::thread_cards_of(
        &rules,
        &run.messages,
        &found.prompts,
        &found.replies,
        &none,
    );
    let root: String = history::persisted_ad_hoc_root(agent);
    let dir: String = text::cat2(root.as_str(), "patches/");
    push_patches(&mut out, run, &found.patches, dir.as_str());
    push_evidence(&mut out, run, &found.evidence);
    out
}

} // verus!
