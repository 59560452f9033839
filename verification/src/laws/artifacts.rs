//! Which artifacts are listed, and what is told of them.

use vstd::prelude::*;

use crate::agent_ops_view::archive;
use crate::agent_ops_view::archive::ArchiveItem;
use crate::agent_ops_view::archive::Origin;
use crate::agent_ops_view::artifacts;
use crate::agent_ops_view::cards;
use crate::agent_ops_view::cards::Card;
use crate::agent_ops_view::cards::Reference;
use crate::agent_ops_view::cards::Rules;
use crate::agent_ops_view::context_cards;
use crate::agent_ops_view::grouping;
use crate::agent_ops_view::swarm_details;
use crate::counting;
use crate::laws::counts;
use crate::laws::wrapping;
use crate::state::AgentMessage;
use crate::state::AgentsState;
use crate::state::AppState;
use crate::state::GateReport;
use crate::state::GateReportGate;
use crate::state::Patch;
use crate::state::PersistedArtifactsRun;
use crate::state::SwarmPersistenceView;
use crate::text;
use crate::wrap;

verus! {

/// Whether a card is that of one of the prompts, or of one of the replies.
pub open spec fn card_of_thread(
    rules: Rules,
    messages: Seq<AgentMessage>,
    prompts: Seq<usize>,
    replies: Seq<usize>,
    c: Card,
) -> bool {
    ||| exists|p: int|
        0 <= p < prompts.len() && c == cards::prompt_card(rules, messages, #[trigger] prompts[p])
    ||| exists|r: int|
        0 <= r < replies.len() && c == cards::reply_card(rules, messages, #[trigger] replies[r])
}

proof fn group_of_thread(
    prompts: Seq<usize>,
    replies: Seq<usize>,
    hints: Seq<Option<usize>>,
    g: int,
)
    requires
        0 <= g < grouping::groups(prompts, replies, hints).len(),
    ensures
        ({
            let group: (Option<usize>, Seq<usize>) = grouping::groups(prompts, replies, hints)[g];
            &&& group.0 is Some ==> prompts.contains(group.0->0)
            &&& forall|i: int|
                0 <= i < group.1.len() ==> replies.contains(#[trigger] group.1[i])
        }),
{
    let orphans: Seq<usize> = grouping::replies_of(prompts, replies, hints, None);
    let shift: int = if orphans.len() > 0 {
        1
    } else {
        0
    };
    let place: Option<int> = if g < shift {
        None
    } else {
        Some(g - shift)
    };
    let group: (Option<usize>, Seq<usize>) = grouping::groups(prompts, replies, hints)[g];
    let meets = grouping::answers(prompts, replies, hints, place);
    counting::picked_are_in_order(replies.len() as int, meets);
    let places: Seq<int> = counting::picked(replies.len() as int, meets);
    assert(group.1 == grouping::replies_of(prompts, replies, hints, place));
    assert forall|i: int| 0 <= i < group.1.len() implies replies.contains(
        #[trigger] group.1[i],
    ) by {
        assert(group.1[i] == replies[places[i]]);
    }
    if g >= shift {
        assert(group.0 == Some(prompts[g - shift]));
        assert(prompts.contains(prompts[g - shift]));
    }
}

/// Every card of a thread is that of one of its prompts or of one of its replies.
pub proof fn cards_are_of_thread(
    rules: Rules,
    messages: Seq<AgentMessage>,
    prompts: Seq<usize>,
    replies: Seq<usize>,
    hints: Seq<Option<usize>>,
    n: int,
    i: int,
)
    requires
        0 <= n <= grouping::groups(prompts, replies, hints).len(),
        0 <= i < cards::groups_cards(
            rules,
            messages,
            grouping::groups(prompts, replies, hints),
            n,
        ).len(),
    ensures
        card_of_thread(
            rules,
            messages,
            prompts,
            replies,
            cards::groups_cards(rules, messages, grouping::groups(prompts, replies, hints), n)[i],
        ),
    decreases n,
{
    let groups: Seq<(Option<usize>, Seq<usize>)> = grouping::groups(prompts, replies, hints);
    if n > 0 {
        let before: Seq<Card> = cards::groups_cards(rules, messages, groups, n - 1);
        if i < before.len() {
            cards_are_of_thread(rules, messages, prompts, replies, hints, n - 1, i);
        } else {
            group_of_thread(prompts, replies, hints, n - 1);
            let group: (Option<usize>, Seq<usize>) = groups[n - 1];
            let own: Seq<Card> = cards::group_cards(rules, messages, group);
            let c: Card = own[i - before.len()];
            let shown: Seq<usize> = cards::last_few(group.1, 48);
            let lead: int = if group.0 is Some {
                1
            } else {
                0
            };
            if i - before.len() < lead {
                let p: int = prompts.index_of(group.0->0);
                assert(c == cards::prompt_card(rules, messages, prompts[p]));
            } else {
                let k: int = i - before.len() - lead;
                assert(c == cards::reply_card(rules, messages, shown[k]));
                let at: int = if group.1.len() > 48 {
                    k + group.1.len() - 48
                } else {
                    k
                };
                assert(shown[k] == group.1[at]);
                let r: int = replies.index_of(group.1[at]);
                assert(c == cards::reply_card(rules, messages, replies[r]));
            }
        }
    }
}

/// The places that are picked meet what they are picked by.
pub proof fn picked_place(n: int, meets: spec_fn(int) -> bool, i: int)
    requires
        0 <= n <= usize::MAX,
        0 <= i < cards::place_list(n, meets).len(),
    ensures
        cards::place_list(n, meets)[i] < n,
        meets(cards::place_list(n, meets)[i] as int),
{
    counting::picked_are_in_order(n, meets);
}

/// Of the messages, the artifacts of a mission list those with its identity: what the user said in
/// it as prompts, what its agents said to nobody but it as replies, and nothing of the swarm's own.
pub proof fn a_mission_lists_its_own_messages(st: AppState, id: Seq<char>, preview: int, i: int)
    requires
        st.agents.messages@.len() <= usize::MAX,
        0 <= i < cards::mission_cards(st, id, preview).len(),
        cards::mission_cards(st, id, preview)[i].reference is Message,
    ensures
        ({
            let c: Card = cards::mission_cards(st, id, preview)[i];
            let idx: int = c.reference->Message_idx as int;
            let m: AgentMessage = st.agents.messages@[idx];
            &&& 0 <= idx < st.agents.messages@.len()
            &&& m.mission_id is Some && m.mission_id->0@ == id
            &&& m.agent_id is None ==> c.kind == "PROMPT"@ && c.owner == "You"@
            &&& m.agent_id is Some ==> m.agent_id->0@ != "swarm"@ && !m.broadcast && c.owner
                == m.agent_id->0@
            &&& c.at == m.at@
        }),
{
    let messages: Seq<AgentMessage> = st.agents.messages@;
    let n: int = messages.len() as int;
    let asks = cards::mission_prompts(st, id);
    let tells = cards::mission_replies(st, id);
    let prompts: Seq<usize> = cards::place_list(n, asks);
    let replies: Seq<usize> = cards::place_list(n, tells);
    let hints: Seq<Option<usize>> = cards::hints(messages, replies);
    let rules: Rules = cards::live_rules(None, preview);
    let groups: Seq<(Option<usize>, Seq<usize>)> = grouping::groups(prompts, replies, hints);
    let thread: Seq<Card> = cards::thread_cards(rules, messages, prompts, replies, hints);
    let c: Card = cards::mission_cards(st, id, preview)[i];
    if i < thread.len() {
        cards_are_of_thread(
            rules,
            messages,
            prompts,
            replies,
            hints,
            groups.len() as int,
            i,
        );
        if exists|p: int|
            0 <= p < prompts.len() && c == cards::prompt_card(rules, messages, #[trigger] prompts[p])
        {
            let p: int = choose|p: int|
                0 <= p < prompts.len() && c == cards::prompt_card(
                    rules,
                    messages,
                    #[trigger] prompts[p],
                );
            picked_place(n, asks, p);
        } else {
            let r: int = choose|r: int|
                0 <= r < replies.len() && c == cards::reply_card(
                    rules,
                    messages,
                    #[trigger] replies[r],
                );
            picked_place(n, tells, r);
        }
    }
}

/// The cards of a group stand among the cards of all groups.
pub proof fn group_cards_are_kept(
    rules: Rules,
    messages: Seq<AgentMessage>,
    groups: Seq<(Option<usize>, Seq<usize>)>,
    n: int,
    g: int,
    i: int,
)
    requires
        0 <= g < n <= groups.len(),
        0 <= i < cards::group_cards(rules, messages, groups[g]).len(),
    ensures
        cards::groups_cards(rules, messages, groups, n).contains(
            cards::group_cards(rules, messages, groups[g])[i],
        ),
    decreases n,
{
    let c: Card = cards::group_cards(rules, messages, groups[g])[i];
    let before: Seq<Card> = cards::groups_cards(rules, messages, groups, n - 1);
    let all: Seq<Card> = cards::groups_cards(rules, messages, groups, n);
    if g == n - 1 {
        assert(all[before.len() + i] == c);
    } else {
        group_cards_are_kept(rules, messages, groups, n - 1, g, i);
        let k: int = before.index_of(c);
        assert(all[k] == c);
    }
}

/// Everything that the user said in a mission is listed among its artifacts.
pub proof fn every_prompt_is_listed(st: AppState, id: Seq<char>, preview: int, idx: usize)
    requires
        idx < st.agents.messages@.len() <= usize::MAX,
        st.agents.messages@[idx as int].mission_id is Some,
        st.agents.messages@[idx as int].mission_id->0@ == id,
        st.agents.messages@[idx as int].agent_id is None,
    ensures
        exists|i: int|
            0 <= i < cards::mission_cards(st, id, preview).len() && (
            #[trigger] cards::mission_cards(st, id, preview)[i]).reference == (Reference::Message {
                idx,
            }) && cards::mission_cards(st, id, preview)[i].kind == "PROMPT"@,
{
    let messages: Seq<AgentMessage> = st.agents.messages@;
    let n: int = messages.len() as int;
    let asks = cards::mission_prompts(st, id);
    let tells = cards::mission_replies(st, id);
    let prompts: Seq<usize> = cards::place_list(n, asks);
    let replies: Seq<usize> = cards::place_list(n, tells);
    let hints: Seq<Option<usize>> = cards::hints(messages, replies);
    let rules: Rules = cards::live_rules(None, preview);
    let groups: Seq<(Option<usize>, Seq<usize>)> = grouping::groups(prompts, replies, hints);
    assert(asks(idx as int));
    counting::picked_holds(n, asks, idx as int);
    let p: int = counting::picked(n, asks).index_of(idx as int);
    assert(prompts[p] == idx);
    let g: int = groups.len() - prompts.len() + p;
    assert(groups[g].0 == Some(idx));
    group_cards_are_kept(rules, messages, groups, groups.len() as int, g, 0);
    let c: Card = cards::group_cards(rules, messages, groups[g])[0];
    let thread: Seq<Card> = cards::thread_cards(rules, messages, prompts, replies, hints);
    let k: int = thread.index_of(c);
    assert(cards::mission_cards(st, id, preview)[k] == c);
}

/// Changes are listed with the latest first, and no more than the last twenty-four.
pub proof fn the_latest_changes_come_first(patches: Seq<Patch>, found: Seq<usize>, i: int)
    requires
        0 <= i < cards::patch_cards(patches, found).len(),
    ensures
        cards::patch_cards(patches, found).len() == (if found.len() > 24 {
            24
        } else {
            found.len()
        }),
        ({
            let c: Card = cards::patch_cards(patches, found)[i];
            let p: Patch = patches[found[found.len() - 1 - i] as int];
            &&& c.reference == (Reference::Patch { idx: found[found.len() - 1 - i] })
            &&& c.kind == "PATCH"@
            &&& c.owner == p.agent_id@
            &&& c.preview == p.title@
            &&& c.at == p.status_label@
        }),
{
}

/// The selected card is one of the cards: the one that was chosen, or the last one where there are
/// fewer.
pub proof fn the_selection_stays_in_the_list(st: AppState, n: int)
    requires
        n > 0,
    ensures
        0 <= artifacts::selected_card(st, n) < n,
        st.agents.artifacts_selected < n ==> artifacts::selected_card(st, n)
            == st.agents.artifacts_selected,
        st.agents.artifacts_selected >= n ==> artifacts::selected_card(st, n) == n - 1,
{
}

/// Where no saved run is selected, what is live in a mission is listed as soon as there is any, and
/// the latest saved run stands in for nothing but an empty list.
pub proof fn live_cards_come_first(st: AppState, preview: int)
    requires
        st.agents.context_mission is Some,
        st.agents.artifacts_selected_saved_run_path is None,
    ensures
        cards::mission_cards(st, st.agents.context_mission->0@, preview).len() > 0
            ==> context_cards::context_cards(st, None, preview) == cards::mission_cards(
            st,
            st.agents.context_mission->0@,
            preview,
        ),
{
}

/// A gate without a status passed exactly where it is in order.
pub proof fn gates_without_a_status_pass_in_order(gate: GateReportGate)
    requires
        gate.status is None,
    ensures
        gate.ok ==> swarm_details::gate_label(gate) == "PASS"@,
        !gate.ok ==> swarm_details::gate_label(gate) == "FAIL"@,
{
}

/// All gates have passed exactly where none of them is told as failed; else the failed ones are
/// counted.
pub proof fn failing_gates_are_counted(view: SwarmPersistenceView, report: GateReport)
    requires
        view.gate_report == Some(report),
    ensures
        (forall|k: int|
            0 <= k < report.gates@.len() ==> !text::same_letters(
                swarm_details::gate_label(#[trigger] report.gates@[k]),
                "FAIL"@,
            )) ==> context_cards::verify_text(view) == "all gates passed"@,
        (exists|k: int|
            0 <= k < report.gates@.len() && text::same_letters(
                swarm_details::gate_label(#[trigger] report.gates@[k]),
                "FAIL"@,
            )) ==> context_cards::verify_text(view) == text::decimal(
            counting::counted(report.gates@.len() as int, context_cards::failing(report)),
        ) + " failing gate(s)"@,
{
    let n: int = report.gates@.len() as int;
    let bad = context_cards::failing(report);
    counts::a_count_tells_whether_there_is_any(n, bad);
    if exists|k: int|
        0 <= k < n && text::same_letters(
            swarm_details::gate_label(#[trigger] report.gates@[k]),
            "FAIL"@,
        ) {
        let k: int = choose|k: int|
            0 <= k < n && text::same_letters(
                swarm_details::gate_label(#[trigger] report.gates@[k]),
                "FAIL"@,
            );
        assert(bad(k));
    } else {
        assert forall|k: int| 0 <= k < n implies !#[trigger] bad(k) by {
            let gate: GateReportGate = report.gates@[k];
        }
    }
}

/// A detail is told whole, line by line behind its label; nothing of it but blanks is lost.
pub proof fn details_are_told_whole(label: Seq<char>, value: Seq<char>, width: int) -> (parts: Seq<
    Seq<char>,
>)
    ensures
        parts.len() == swarm_details::detail(label, value, width).len(),
        wrapping::dark(text::run_together(parts)) == wrapping::dark(value),
        forall|i: int|
            #![trigger parts[i]]
            0 <= i < parts.len() ==> swarm_details::detail(label, value, width)[i] == " "@
                + text::trimmed(label) + ": "@ + parts[i],
{
    let bare: Seq<char> = text::trimmed(value);
    let prefix: Seq<char> = " "@ + text::trimmed(label) + ": "@;
    let room: int = text::max_int(text::monus(width, prefix.len() as int), 8);
    wrapping::trimming_keeps_every_letter(value);
    if bare.len() == 0 {
        assert(bare =~= Seq::<char>::empty());
        Seq::empty()
    } else {
        wrapping::cells_keep_every_letter(bare, room);
        wrap::cell_lines(bare, room)
    }
}

/// A text is told whole below its heading, each line behind a space.
pub proof fn contents_are_told_whole(s: Seq<char>, width: int) -> (parts: Seq<Seq<char>>)
    requires
        width >= 2,
    ensures
        parts.len() == swarm_details::indented(s, width).len(),
        wrapping::dark(text::run_together(parts)) == wrapping::dark(s),
        forall|i: int|
            #![trigger parts[i]]
            0 <= i < parts.len() ==> swarm_details::indented(s, width)[i] == " "@ + parts[i],
{
    wrapping::cells_keep_every_letter(s, width - 1);
    wrap::cell_lines(s, width - 1)
}

proof fn message_items_hold(
    agents: AgentsState,
    run: PersistedArtifactsRun,
    from: Origin,
    n: int,
    k: int,
)
    requires
        0 <= k < n <= run.messages@.len(),
        run.messages@[k].agent_id is None || run.messages@[k].agent_id->0@ != "swarm"@,
    ensures
        exists|i: int|
            0 <= i < archive::message_items(agents, run, from, n).len() && (
            #[trigger] archive::message_items(agents, run, from, n)[i]).artifact_index == k
                && archive::message_items(agents, run, from, n)[i].kind == archive::message_kind(
                run,
                k,
            ),
    decreases n,
{
    let before: Seq<ArchiveItem> = archive::message_items(agents, run, from, n - 1);
    let all: Seq<ArchiveItem> = archive::message_items(agents, run, from, n);
    if k == n - 1 {
        assert(all[before.len() as int].artifact_index == k);
    } else {
        message_items_hold(agents, run, from, n - 1, k);
        let i: int = choose|i: int|
            0 <= i < before.len() && (#[trigger] before[i]).artifact_index == k && before[i].kind
                == archive::message_kind(run, k);
        assert(all[i] == before[i]);
    }
}

/// The archive of a run has an item for every message, but for those of the swarm itself, with the
/// place and the kind of the message; for every change, and for every finding.
pub proof fn everything_of_a_run_is_archived(
    agents: AgentsState,
    run: PersistedArtifactsRun,
    from: Origin,
    k: int,
)
    ensures
        0 <= k < run.messages@.len() && (run.messages@[k].agent_id is None
            || run.messages@[k].agent_id->0@ != "swarm"@) ==> exists|i: int|
            0 <= i < archive::run_items(agents, run, from).len() && (#[trigger] archive::run_items(
                agents,
                run,
                from,
            )[i]).artifact_index == k && archive::run_items(agents, run, from)[i].kind
                == archive::message_kind(run, k),
        0 <= k < run.patches@.len() ==> exists|i: int|
            0 <= i < archive::run_items(agents, run, from).len() && (#[trigger] archive::run_items(
                agents,
                run,
                from,
            )[i]).artifact_index == k && archive::run_items(agents, run, from)[i].kind
                == "PATCH"@,
        0 <= k < run.evidence@.len() ==> exists|i: int|
            0 <= i < archive::run_items(agents, run, from).len() && (#[trigger] archive::run_items(
                agents,
                run,
                from,
            )[i]).artifact_index == k && archive::run_items(agents, run, from)[i].kind
                == "EVIDENCE"@,
{
    let n: int = run.messages@.len() as int;
    let first: Seq<ArchiveItem> = archive::message_items(agents, run, from, n);
    let second: Seq<ArchiveItem> = archive::patch_items(agents, run, from);
    let all: Seq<ArchiveItem> = archive::run_items(agents, run, from);
    if 0 <= k < n && (run.messages@[k].agent_id is None || run.messages@[k].agent_id->0@
        != "swarm"@) {
        message_items_hold(agents, run, from, n, k);
        let i: int = choose|i: int|
            0 <= i < first.len() && (#[trigger] first[i]).artifact_index == k && first[i].kind
                == archive::message_kind(run, k);
        assert(all[i] == first[i]);
    }
    if 0 <= k < run.patches@.len() {
        assert(all[first.len() + k] == second[k]);
    }
    if 0 <= k < run.evidence@.len() {
        assert(all[first.len() + second.len() + k] == archive::evidence_items(
            agents,
            run,
            from,
        )[k]);
    }
}

/// What the user said is a prompt; what an agent said is a reply, unless it is marked as a plan or a
/// summary, or the run is a swarm's.
pub proof fn messages_are_archived_by_who_said_them(run: PersistedArtifactsRun, k: int)
    requires
        0 <= k < run.messages@.len(),
    ensures
        run.messages@[k].agent_id is None ==> archive::message_kind(run, k) == "PROMPT"@,
        run.messages@[k].agent_id is Some && run.messages@[k].kind is Some && run.messages@[k].kind->0@
            == "synth"@ ==> archive::message_kind(run, k) == "SYNTH"@,
        run.messages@[k].agent_id is Some && !run.swarm && run.messages@[k].kind is None
            ==> archive::message_kind(run, k) == "REPLY"@,
        run.messages@[k].agent_id is Some && !run.swarm && run.messages@[k].kind is Some
            && run.messages@[k].kind->0@ == "plan"@ ==> archive::message_kind(run, k) == "PLAN"@,
{
    reveal_strlit("synth");
    reveal_strlit("plan");
    assert("synth"@.len() == 5);
    assert("plan"@.len() == 4);
}

} // verus!
