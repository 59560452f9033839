//! The cards of the current context.

use vstd::prelude::*;

use crate::agent_ops_view::cards;
use crate::agent_ops_view::cards::ArtifactCard;
use crate::agent_ops_view::cards::ArtifactsPopupRef;
use crate::agent_ops_view::cards::Card;
use crate::agent_ops_view::cards::Reference;
use crate::agent_ops_view::history;
use crate::agent_ops_view::provenance;
use crate::agent_ops_view::saved_cards;
use crate::agent_ops_view::swarm_details;
use crate::counting;
use crate::previews;
use crate::state;
use crate::state::AgentMessage;
use crate::state::AppState;
use crate::state::GateReport;
use crate::state::SwarmPersistenceView;
use crate::state::SwarmRuntime;
use crate::state::SwarmTaskPersistenceView;
use crate::text;

verus! {

/// The last of the first `n` tasks of an agent that wrote this text.
pub open spec fn task_that_wrote(
    tasks: Seq<SwarmTaskPersistenceView>,
    agent: Seq<char>,
    output: Seq<char>,
    n: int,
) -> Option<int>
    decreases n,
{
    if n <= 0 {
        None
    } else if tasks[n - 1].agent_id@ == agent && text::opt_text(tasks[n - 1].output) == Some(
        output,
    ) {
        Some(n - 1)
    } else {
        task_that_wrote(tasks, agent, output, n - 1)
    }
}

pub fn find_task_that_wrote(
    tasks: &Vec<SwarmTaskPersistenceView>,
    agent: &str,
    output: &str,
) -> (r: Option<usize>)
    ensures
        match r {
            Some(k) => k < tasks@.len() && task_that_wrote(
                tasks@,
                agent@,
                output@,
                tasks@.len() as int,
            ) == Some(k as int),
            None => task_that_wrote(tasks@, agent@, output@, tasks@.len() as int) is None,
        },
{
    let mut n: usize = tasks.len();
    while n > 0
        invariant
            n <= tasks@.len(),
            task_that_wrote(tasks@, agent@, output@, tasks@.len() as int) == task_that_wrote(
                tasks@,
                agent@,
                output@,
                n as int,
            ),
        decreases n,
    {
        if text::str_eq(tasks[n - 1].agent_id.as_str(), agent) && text::opt_str_eq(
            &tasks[n - 1].output,
            output,
        ) {
            return Some(n - 1);
        }
        n -= 1;
    }
    None
}

/// The message and its author behind a reply's card.
pub open spec fn replied(messages: Seq<AgentMessage>, card: Card) -> Option<(AgentMessage, Seq<char>)> {
    match card.reference {
        Reference::Message { idx } => if card.kind == "REPLY"@ && idx < messages.len()
            && messages[idx as int].agent_id is Some {
            Some((messages[idx as int], messages[idx as int].agent_id->0@))
        } else {
            None
        },
        _ => None,
    }
}

/// A card of a swarm's thread: a reply that a task wrote stands for the task, and the first other
/// reply is the plan. The second part says whether the plan has been found.
pub open spec fn told_apart(
    messages: Seq<AgentMessage>,
    view: SwarmPersistenceView,
    card: Card,
    plan_found: bool,
) -> (Card, bool) {
    match replied(messages, card) {
        None => (card, plan_found),
        Some(ma) => match task_that_wrote(
            view.tasks@,
            ma.1,
            ma.0.text@,
            view.tasks@.len() as int,
        ) {
            Some(k) => {
                let task: SwarmTaskPersistenceView = view.tasks@[k];
                (
                    Card {
                        kind: "TASK"@,
                        at: match task.role {
                            Some(r) => r@,
                            None => task.state@,
                        },
                        reference: Reference::SwarmTask {
                            mission_id: view.mission_id@,
                            task_id: task.id@,
                        },
                        ..card
                    },
                    plan_found,
                )
            },
            None => if plan_found {
                (card, true)
            } else {
                (Card { kind: "PLAN"@, at: "planner"@, ..card }, true)
            },
        },
    }
}

/// The first `n` cards of a swarm's thread, told apart.
pub open spec fn all_told_apart(
    messages: Seq<AgentMessage>,
    view: SwarmPersistenceView,
    v: Seq<Card>,
    n: int,
) -> (Seq<Card>, bool)
    decreases n,
{
    if n <= 0 {
        (Seq::empty(), false)
    } else {
        let before: (Seq<Card>, bool) = all_told_apart(messages, view, v, n - 1);
        let next: (Card, bool) = told_apart(messages, view, v[n - 1], before.1);
        (before.0.push(next.0), next.1)
    }
}

fn tell_apart(
    messages: &Vec<AgentMessage>,
    view: &SwarmPersistenceView,
    card: ArtifactCard,
    plan_found: bool,
) -> (r: (ArtifactCard, bool))
    ensures
        (r.0@, r.1) == told_apart(messages@, *view, card@, plan_found),
{
    if !text::str_eq(card.kind, "REPLY") {
        return (card, plan_found);
    }
    let idx: usize = match &card.reference {
        ArtifactsPopupRef::Message { idx } => *idx,
        _ => {
            return (card, plan_found);
        },
    };
    if idx >= messages.len() {
        return (card, plan_found);
    }
    let agent: &str = match &messages[idx].agent_id {
        Some(a) => a.as_str(),
        None => {
            return (card, plan_found);
        },
    };
    match find_task_that_wrote(&view.tasks, agent, messages[idx].text.as_str()) {
        Some(k) => {
            let task: &SwarmTaskPersistenceView = &view.tasks[k];
            let at: String = match &task.role {
                Some(r) => r.clone(),
                None => task.state.clone(),
            };
            (
                ArtifactCard {
                    kind: "TASK",
                    at,
                    owner: card.owner,
                    preview: card.preview,
                    reference: ArtifactsPopupRef::SwarmTask {
                        mission_id: view.mission_id.clone(),
                        task_id: task.id.clone(),
                    },
                },
                plan_found,
            )
        },
        None => if plan_found {
            (card, true)
        } else {
            (
                ArtifactCard {
                    kind: "PLAN",
                    at: text::copy("planner"),
                    owner: card.owner,
                    preview: card.preview,
                    reference: card.reference,
                },
                true,
            )
        },
    }
}

fn tell_all_apart(
    messages: &Vec<AgentMessage>,
    view: &SwarmPersistenceView,
    v: Vec<ArtifactCard>,
) -> (r: Vec<ArtifactCard>)
    ensures
        cards::cards(r@) == all_told_apart(
            messages@,
            *view,
            cards::cards(v@),
            v@.len() as int,
        ).0,
{
    let ghost all: Seq<Card> = cards::cards(v@);
    let total: usize = v.len();
    let mut rest: Vec<ArtifactCard> = Vec::new();
    let mut from: Vec<ArtifactCard> = v;
    // Taken from the back, so that each card can be moved out.
    while from.len() > 0
        invariant
            from@.len() + rest@.len() == total,
            total == all.len(),
            forall|k: int| 0 <= k < from@.len() ==> (#[trigger] from@[k])@ == all[k],
            forall|k: int|
                0 <= k < rest@.len() ==> (#[trigger] rest@[k])@ == all[total - 1 - k],
        decreases from@.len(),
    {
        match from.pop() {
            Some(c) => {
                rest.push(c);
            },
            None => {},
        }
    }
    let mut out: Vec<ArtifactCard> = Vec::new();
    let mut plan_found: bool = false;
    let mut i: usize = 0;
    assert(cards::cards(out@) =~= Seq::<Card>::empty());
    while i < total
        invariant
            i <= total,
            total == all.len(),
            rest@.len() == total - i,
            forall|k: int|
                0 <= k < rest@.len() ==> (#[trigger] rest@[k])@ == all[total - 1 - k],
            cards::cards(out@) == all_told_apart(messages@, *view, all, i as int).0,
            plan_found == all_told_apart(messages@, *view, all, i as int).1,
        decreases total - i,
    {
        match rest.pop() {
            Some(c) => {
                let next: (ArtifactCard, bool) = tell_apart(messages, view, c, plan_found);
                proof {
                    cards::cards_push(out@, next.0);
                }
                out.push(next.0);
                plan_found = next.1;
            },
            None => {},
        }
        i += 1;
    }
    out
}

/// The report of a swarm, where there is one.
pub open spec fn report_card(view: SwarmPersistenceView, preview: int) -> Option<Card> {
    match view.report_output {
        Some(s) => Some(
            Card {
                kind: "REPORT"@,
                at: swarm_details::text_or(view.report_status, "FINAL"@),
                owner: swarm_details::text_or(view.report_agent_id, "planner"@),
                preview: previews::preview(s@, preview),
                reference: Reference::SwarmReport { mission_id: view.mission_id@ },
            },
        ),
        None => None,
    }
}

fn report_card_of(view: &SwarmPersistenceView, preview_chars: usize) -> (r: Option<ArtifactCard>)
    ensures
        match r {
            Some(c) => report_card(*view, preview_chars as int) == Some(c@),
            None => report_card(*view, preview_chars as int) is None,
        },
{
    match &view.report_output {
        Some(s) => Some(
            ArtifactCard {
                kind: "REPORT",
                at: swarm_details::string_or(&view.report_status, "FINAL"),
                owner: swarm_details::string_or(&view.report_agent_id, "planner"),
                preview: previews::summarize_text_preview(s.as_str(), preview_chars),
                reference: ArtifactsPopupRef::SwarmReport { mission_id: view.mission_id.clone() },
            },
        ),
        None => None,
    }
}

/// The gates that failed.
pub open spec fn failing(report: GateReport) -> spec_fn(int) -> bool {
    |k: int| text::same_letters(swarm_details::gate_label(report.gates@[k]), "FAIL"@)
}

fn count_failing(report: &GateReport) -> (r: usize)
    ensures
        r == counting::counted(report.gates@.len() as int, failing(*report)),
{
    let mut count: usize = 0;
    let mut i: usize = 0;
    while i < report.gates.len()
        invariant
            i <= report.gates@.len(),
            count <= i,
            count == counting::counted(i as int, failing(*report)),
        decreases report.gates@.len() - i,
    {
        if text::eq_ignore_case(
            swarm_details::gate_report_status_label(&report.gates[i]),
            "FAIL",
        ) {
            count += 1;
        }
        i += 1;
    }
    count
}

/// What the checks of a swarm found, in a few words.
pub open spec fn verify_text(view: SwarmPersistenceView) -> Seq<char> {
    match view.gate_report {
        Some(report) => {
            let failures: nat = counting::counted(report.gates@.len() as int, failing(report));
            if failures > 0 {
                text::decimal(failures) + " failing gate(s)"@
            } else {
                "all gates passed"@
            }
        },
        None => if view.gate_bundle is Some {
            "gate bundle selected; report pending"@
        } else {
            ""@
        },
    }
}

/// The checks of a swarm, where there are some.
pub open spec fn verify_card(view: SwarmPersistenceView, preview: int) -> Option<Card> {
    if view.gate_bundle is Some || view.gate_report is Some || view.gate_output is Some {
        Some(
            Card {
                kind: "VERIFY"@,
                at: swarm_details::verify_status(view),
                owner: swarm_details::text_or(view.gate_bundle, "gates"@),
                preview: previews::preview(verify_text(view), preview),
                reference: Reference::SwarmVerify { mission_id: view.mission_id@ },
            },
        )
    } else {
        None
    }
}

fn verify_card_of(view: &SwarmPersistenceView, preview_chars: usize) -> (r: Option<ArtifactCard>)
    ensures
        match r {
            Some(c) => verify_card(*view, preview_chars as int) == Some(c@),
            None => verify_card(*view, preview_chars as int) is None,
        },
{
    if view.gate_bundle.is_none() && view.gate_report.is_none() && view.gate_output.is_none() {
        return None;
    }
    let words: String = match &view.gate_report {
        Some(report) => {
            let failures: usize = count_failing(report);
            if failures > 0 {
                text::cat2(text::decimal_usize(failures).as_str(), " failing gate(s)")
            } else {
                text::copy("all gates passed")
            }
        },
        None => if view.gate_bundle.is_some() {
            text::copy("gate bundle selected; report pending")
        } else {
            text::copy("")
        },
    };
    Some(
        ArtifactCard {
            kind: "VERIFY",
            at: text::copy(swarm_details::swarm_verify_status(view)),
            owner: swarm_details::string_or(&view.gate_bundle, "gates"),
            preview: previews::summarize_text_preview(words.as_str(), preview_chars),
            reference: ArtifactsPopupRef::SwarmVerify { mission_id: view.mission_id.clone() },
        },
    )
}

/// A card, where there is one.
pub open spec fn maybe(c: Option<Card>) -> Seq<Card> {
    match c {
        Some(x) => seq![x],
        None => Seq::empty(),
    }
}

/// The cards of a swarm: its checks, its thread and its report.
pub open spec fn swarm_cards(
    st: AppState,
    view: SwarmPersistenceView,
    id: Seq<char>,
    preview: int,
) -> Seq<Card> {
    let thread: Seq<Card> = cards::mission_cards(st, id, preview);
    maybe(verify_card(view, preview)) + all_told_apart(
        st.agents.messages@,
        view,
        thread,
        thread.len() as int,
    ).0 + maybe(report_card(view, preview))
}

fn swarm_cards_of(
    st: &AppState,
    view: &SwarmPersistenceView,
    id: &str,
    preview_chars: usize,
) -> (r: Vec<ArtifactCard>)
    ensures
        cards::cards(r@) == swarm_cards(*st, *view, id@, preview_chars as int),
{
    let thread: Vec<ArtifactCard> = cards::build_mission_cards(st, id, preview_chars);
    assert(cards::cards(thread@).len() == thread@.len());
    let mut told: Vec<ArtifactCard> = tell_all_apart(&st.agents.messages, view, thread);
    let ghost middle: Seq<Card> = cards::cards(told@);
    let mut out: Vec<ArtifactCard> = Vec::new();
    if let Some(c) = verify_card_of(view, preview_chars) {
        out.push(c);
    }
    let ghost first: Seq<Card> = maybe(verify_card(*view, preview_chars as int));
    assert(cards::cards(out@) =~= first);
    proof {
        cards::cards_add(out@, told@);
    }
    out.append(&mut told);
    if let Some(c) = report_card_of(view, preview_chars) {
        proof {
            cards::cards_push(out@, c);
        }
        out.push(c);
    }
    assert(cards::cards(out@) =~= first + middle + maybe(
        report_card(*view, preview_chars as int),
    ));
    out
}

/// The tasks that have something to show.
pub open spec fn task_shown(task: SwarmTaskPersistenceView) -> bool {
    (task.artifacts matches Some(a) && swarm_details::artifacts_present(a))
        || task.expected_artifacts_missing || task.output_present
}

/// A task on one card.
pub open spec fn task_card(
    view: SwarmPersistenceView,
    task: SwarmTaskPersistenceView,
    preview: int,
) -> Card {
    let line: Seq<char> = if task.expected_artifacts_missing {
        task.id@ + ": "@ + task.title@ + " (missing artifacts)"@
    } else {
        task.id@ + ": "@ + (match task.artifacts {
            Some(a) => swarm_details::text_or(a.summary, task.title@),
            None => task.title@,
        })
    };
    Card {
        kind: "TASK"@,
        at: task.state@,
        owner: task.agent_id@,
        preview: previews::preview(line, preview),
        reference: Reference::SwarmTask { mission_id: view.mission_id@, task_id: task.id@ },
    }
}

pub open spec fn task_cards(view: SwarmPersistenceView, preview: int, n: int) -> Seq<Card>
    decreases n,
{
    if n <= 0 {
        Seq::empty()
    } else if task_shown(view.tasks@[n - 1]) {
        task_cards(view, preview, n - 1).push(task_card(view, view.tasks@[n - 1], preview))
    } else {
        task_cards(view, preview, n - 1)
    }
}

/// The cards of a swarm by its tasks: the report, the checks and each task.
pub fn build_swarm_cards(view: &SwarmPersistenceView, preview_chars: usize) -> (r: Vec<
    ArtifactCard,
>)
    ensures
        cards::cards(r@) == maybe(report_card(*view, preview_chars as int)) + maybe(
            verify_card(*view, preview_chars as int),
        ) + task_cards(*view, preview_chars as int, view.tasks@.len() as int),
{
    let mut out: Vec<ArtifactCard> = Vec::new();
    if let Some(c) = report_card_of(view, preview_chars) {
        out.push(c);
    }
    assert(cards::cards(out@) =~= maybe(report_card(*view, preview_chars as int)));
    if let Some(c) = verify_card_of(view, preview_chars) {
        proof {
            cards::cards_push(out@, c);
        }
        out.push(c);
    }
    let ghost head: Seq<Card> = maybe(report_card(*view, preview_chars as int)) + maybe(
        verify_card(*view, preview_chars as int),
    );
    assert(cards::cards(out@) =~= head);
    let mut i: usize = 0;
    assert(head + task_cards(*view, preview_chars as int, 0) =~= head);
    while i < view.tasks.len()
        invariant
            i <= view.tasks@.len(),
            cards::cards(out@) == head + task_cards(*view, preview_chars as int, i as int),
        decreases view.tasks@.len() - i,
    {
        let task: &SwarmTaskPersistenceView = &view.tasks[i];
        let told: bool = match &task.artifacts {
            Some(a) => swarm_details::task_artifacts_present(a),
            None => false,
        };
        if told || task.expected_artifacts_missing || task.output_present {
            let line: String = if task.expected_artifacts_missing {
                text::cat4(
                    task.id.as_str(),
                    ": ",
                    task.title.as_str(),
                    " (missing artifacts)",
                )
            } else {
                let words: String = match &task.artifacts {
                    Some(a) => swarm_details::string_or(&a.summary, task.title.as_str()),
                    None => task.title.clone(),
                };
                text::cat3(task.id.as_str(), ": ", words.as_str())
            };
            let c: ArtifactCard = ArtifactCard {
                kind: "TASK",
                at: task.state.clone(),
                owner: task.agent_id.clone(),
                preview: previews::summarize_text_preview(line.as_str(), preview_chars),
                reference: ArtifactsPopupRef::SwarmTask {
                    mission_id: view.mission_id.clone(),
                    task_id: task.id.clone(),
                },
            };
            proof {
                cards::cards_push(out@, c);
                let done: Seq<Card> = task_cards(*view, preview_chars as int, i as int);
                assert((head + done).push(c@) =~= head + done.push(c@));
            }
            out.push(c);
        }
        i += 1;
    }
    out
}

/// The swarm of a mission.
pub open spec fn swarm_view(swarm: Option<&SwarmRuntime>, id: Seq<char>) -> Option<
    SwarmPersistenceView,
> {
    match swarm {
        Some(s) => state::value_of(s.persistence@, id),
        None => None,
    }
}

pub fn find_swarm<'a>(swarm: Option<&'a SwarmRuntime>, id: &str) -> (r: Option<
    &'a SwarmPersistenceView,
>)
    ensures
        match r {
            Some(v) => swarm_view(swarm, id@) == Some(*v),
            None => swarm_view(swarm, id@) is None,
        },
{
    match swarm {
        Some(s) => state::lookup(&s.persistence, id),
        None => None,
    }
}

/// The cards of the current context: those of the archived run that was selected; else those of
/// the swarm or of the running thread; else those of the latest saved run.
pub open spec fn context_cards(st: AppState, swarm: Option<&SwarmRuntime>, preview: int) -> Seq<
    Card,
> {
    match (st.agents.context_mission, st.agents.context_agent) {
        (Some(id), _) => match history::selected_archived(st) {
            Some(k) => saved_cards::mission_cards(history::run_at(st, k), id@, preview),
            None => match swarm_view(swarm, id@) {
                Some(view) => swarm_cards(st, view, id@, preview),
                None => {
                    let live: Seq<Card> = cards::mission_cards(st, id@, preview);
                    match provenance::latest_run(st) {
                        Some(run) => if live.len() == 0 {
                            saved_cards::mission_cards(run, id@, preview)
                        } else {
                            live
                        },
                        None => live,
                    }
                },
            },
        },
        (None, Some(agent)) => match history::selected_archived(st) {
            Some(k) => saved_cards::ad_hoc_cards(history::run_at(st, k), agent@, preview),
            None => {
                let live: Seq<Card> = cards::ad_hoc_cards(st, agent@, preview);
                match provenance::latest_run(st) {
                    Some(run) => if live.len() == 0 {
                        saved_cards::ad_hoc_cards(run, agent@, preview)
                    } else {
                        live
                    },
                    None => live,
                }
            },
        },
        (None, None) => Seq::empty(),
    }
}

pub fn artifact_cards_for_context(
    st: &AppState,
    swarm: Option<&SwarmRuntime>,
    preview_chars: usize,
) -> (r: Vec<ArtifactCard>)
    ensures
        cards::cards(r@) == context_cards(*st, swarm, preview_chars as int),
{
    match (&st.agents.context_mission, &st.agents.context_agent) {
        (Some(id), _) => {
            if let Some(er) = history::selected_archived_run_for_current_context(st) {
                return saved_cards::build_persisted_mission_cards(
                    er.1,
                    id.as_str(),
                    preview_chars,
                );
            }
            if let Some(view) = find_swarm(swarm, id.as_str()) {
                return swarm_cards_of(st, view, id.as_str(), preview_chars);
            }
            let live: Vec<ArtifactCard> = cards::build_mission_cards(
                st,
                id.as_str(),
                preview_chars,
            );
            assert(cards::cards(live@).len() == live@.len());
            if live.len() == 0 {
                if let Some(c) = &st.saved.current {
                    return saved_cards::build_persisted_mission_cards(
                        &c.run,
                        id.as_str(),
                        preview_chars,
                    );
                }
            }
            live
        },
        (None, Some(agent)) => {
            if let Some(er) = history::selected_archived_run_for_current_context(st) {
                return saved_cards::build_persisted_ad_hoc_cards(
                    er.1,
                    agent.as_str(),
                    preview_chars,
                );
            }
            let live: Vec<ArtifactCard> = cards::build_ad_hoc_cards(
                st,
                agent.as_str(),
                preview_chars,
            );
            assert(cards::cards(live@).len() == live@.len());
            if live.len() == 0 {
                if let Some(c) = &st.saved.current {
                    return saved_cards::build_persisted_ad_hoc_cards(
                        &c.run,
                        agent.as_str(),
                        preview_chars,
                    );
                }
            }
            live
        },
        (None, None) => {
            let none: Vec<ArtifactCard> = Vec::new();
            assert(cards::cards(none@) =~= Seq::<Card>::empty());
            none
        },
    }
}

/// Telling the cards of a swarm apart keeps their number, their owners and what they preview.
pub proof fn telling_apart_keeps_cards(
    messages: Seq<AgentMessage>,
    view: SwarmPersistenceView,
    v: Seq<Card>,
    n: int,
)
    requires
        0 <= n <= v.len(),
    ensures
        all_told_apart(messages, view, v, n).0.len() == n,
        forall|i: int|
            0 <= i < n ==> (#[trigger] all_told_apart(messages, view, v, n).0[i]).owner
                == v[i].owner && all_told_apart(messages, view, v, n).0[i].preview == v[i].preview,
    decreases n,
{
    if n > 0 {
        telling_apart_keeps_cards(messages, view, v, n - 1);
    }
}

/// At most one reply of a swarm's thread is taken for its plan.
pub proof fn one_plan_at_most(
    messages: Seq<AgentMessage>,
    view: SwarmPersistenceView,
    v: Seq<Card>,
    n: int,
    i: int,
    j: int,
)
    requires
        0 <= i < j < n <= v.len(),
        v[i].kind != "PLAN"@,
        v[j].kind != "PLAN"@,
    ensures
        !(all_told_apart(messages, view, v, n).0[i].kind == "PLAN"@ && all_told_apart(
            messages,
            view,
            v,
            n,
        ).0[j].kind == "PLAN"@),
    decreases n,
{
    reveal_strlit("PLAN");
    reveal_strlit("TASK");
    telling_apart_keeps_cards(messages, view, v, n - 1);
    if j < n - 1 {
        one_plan_at_most(messages, view, v, n - 1, i, j);
    } else if all_told_apart(messages, view, v, n - 1).0[i].kind == "PLAN"@ {
        plan_is_found(messages, view, v, n - 1, i);
        assert("TASK"@ != "PLAN"@) by {
            assert("TASK"@[0] != "PLAN"@[0]);
        }
    }
}

proof fn plan_is_found(
    messages: Seq<AgentMessage>,
    view: SwarmPersistenceView,
    v: Seq<Card>,
    n: int,
    i: int,
)
    requires
        0 <= i < n <= v.len(),
        v[i].kind != "PLAN"@,
        all_told_apart(messages, view, v, n).0[i].kind == "PLAN"@,
    ensures
        all_told_apart(messages, view, v, n).1,
    decreases n,
{
    reveal_strlit("PLAN");
    reveal_strlit("TASK");
    telling_apart_keeps_cards(messages, view, v, n - 1);
    assert("TASK"@ != "PLAN"@) by {
        assert("TASK"@[0] != "PLAN"@[0]);
    }
    if i < n - 1 {
        plan_is_found(messages, view, v, n - 1, i);
    }
}

} // verus!
