//! Whose artifacts are listed, and what is shown of the one that is opened.

use vstd::prelude::*;

use crate::agent_ops_view::cards;
use crate::agent_ops_view::cards::Card;
use crate::agent_ops_view::cards::Reference;
use crate::agent_ops_view::cards::Rules;
use crate::agent_ops_view::context_cards;
use crate::agent_ops_view::grouping;
use crate::agent_ops_view::history;
use crate::agent_ops_view::popup;
use crate::agent_ops_view::saved_cards;
use crate::agent_ops_view::swarm_details;
use crate::counting;
use crate::laws::artifacts;
use crate::laws::saved_runs;
use crate::order;
use crate::state;
use crate::state::AgentMessage;
use crate::state::AppState;
use crate::state::PersistedArtifactsRun;
use crate::state::SwarmPersistenceView;
use crate::state::SwarmRuntime;
use crate::state::SwarmTaskPersistenceView;
use crate::text;

verus! {

proof fn thread_card(
    rules: Rules,
    messages: Seq<AgentMessage>,
    asks: spec_fn(int) -> bool,
    tells: spec_fn(int) -> bool,
    hints: Seq<Option<usize>>,
    i: int,
) -> (idx: usize)
    requires
        messages.len() <= usize::MAX,
        0 <= i < cards::thread_cards(
            rules,
            messages,
            cards::place_list(messages.len() as int, asks),
            cards::place_list(messages.len() as int, tells),
            hints,
        ).len(),
    ensures
        idx < messages.len(),
        ({
            let c: Card = cards::thread_cards(
                rules,
                messages,
                cards::place_list(messages.len() as int, asks),
                cards::place_list(messages.len() as int, tells),
                hints,
            )[i];
            ||| asks(idx as int) && c == cards::prompt_card(rules, messages, idx)
            ||| tells(idx as int) && c == cards::reply_card(rules, messages, idx)
        }),
{
    let n: int = messages.len() as int;
    let prompts: Seq<usize> = cards::place_list(n, asks);
    let replies: Seq<usize> = cards::place_list(n, tells);
    let groups: Seq<(Option<usize>, Seq<usize>)> = grouping::groups(prompts, replies, hints);
    let c: Card = cards::thread_cards(rules, messages, prompts, replies, hints)[i];
    artifacts::cards_are_of_thread(
        rules,
        messages,
        prompts,
        replies,
        hints,
        groups.len() as int,
        i,
    );
    if exists|p: int|
        0 <= p < prompts.len() && c == cards::prompt_card(rules, messages, #[trigger] prompts[p]) {
        let p: int = choose|p: int|
            0 <= p < prompts.len() && c == cards::prompt_card(
                rules,
                messages,
                #[trigger] prompts[p],
            );
        artifacts::picked_place(n, asks, p);
        prompts[p]
    } else {
        let r: int = choose|r: int|
            0 <= r < replies.len() && c == cards::reply_card(rules, messages, #[trigger] replies[r]);
        artifacts::picked_place(n, tells, r);
        replies[r]
    }
}

/// Of the messages, the artifacts of a chat list those of no mission: what the user said as prompts,
/// and what the agent or one of its copies said as replies under the agent's name.
pub proof fn a_chat_lists_its_own_messages(st: AppState, agent: Seq<char>, preview: int, i: int)
    requires
        st.agents.messages@.len() <= usize::MAX,
        0 <= i < cards::ad_hoc_cards(st, agent, preview).len(),
        cards::ad_hoc_cards(st, agent, preview)[i].reference is Message,
    ensures
        ({
            let c: Card = cards::ad_hoc_cards(st, agent, preview)[i];
            let idx: int = c.reference->Message_idx as int;
            let m: AgentMessage = st.agents.messages@[idx];
            &&& 0 <= idx < st.agents.messages@.len()
            &&& m.mission_id is None
            &&& m.agent_id is None ==> c.kind == "PROMPT"@ && c.owner == "You"@
            &&& m.agent_id is Some ==> (m.agent_id->0@ == agent || st.agents.chat_clones.base(
                m.agent_id->0@,
            ) == Some(agent)) && c.owner == agent
            &&& c.at == m.at@
        }),
{
    let messages: Seq<AgentMessage> = st.agents.messages@;
    let n: int = messages.len() as int;
    let replies: Seq<usize> = cards::place_list(n, cards::ad_hoc_replies(st, agent));
    let thread: Seq<Card> = cards::thread_cards(
        cards::live_rules(Some(agent), preview),
        messages,
        cards::place_list(n, cards::ad_hoc_prompts(st)),
        replies,
        cards::hints(messages, replies),
    );
    if i < thread.len() {
        let idx: usize = thread_card(
            cards::live_rules(Some(agent), preview),
            messages,
            cards::ad_hoc_prompts(st),
            cards::ad_hoc_replies(st, agent),
            cards::hints(messages, replies),
            i,
        );
        assert(thread[i].reference == (Reference::Message { idx }));
    }
}

/// No more places are picked than there are.
pub proof fn few_are_picked(n: int, meets: spec_fn(int) -> bool)
    requires
        0 <= n,
    ensures
        counting::picked(n, meets).len() <= n,
    decreases n,
{
    if n > 0 {
        few_are_picked(n - 1, meets);
    }
}

/// What an agent said in a mission is listed among its artifacts.
pub proof fn every_reply_is_listed(st: AppState, id: Seq<char>, preview: int, idx: usize)
    requires
        st.agents.messages@.len() <= 48,
        idx < st.agents.messages@.len(),
        st.agents.messages@[idx as int].mission_id is Some,
        st.agents.messages@[idx as int].mission_id->0@ == id,
        st.agents.messages@[idx as int].agent_id is Some,
        st.agents.messages@[idx as int].agent_id->0@ != "swarm"@,
        !st.agents.messages@[idx as int].broadcast,
    ensures
        exists|i: int|
            0 <= i < cards::mission_cards(st, id, preview).len() && (
            #[trigger] cards::mission_cards(st, id, preview)[i]).reference == (Reference::Message {
                idx,
            }) && cards::mission_cards(st, id, preview)[i].owner
                == st.agents.messages@[idx as int].agent_id->0@,
{
    let messages: Seq<AgentMessage> = st.agents.messages@;
    let n: int = messages.len() as int;
    let asks = cards::mission_prompts(st, id);
    let tells = cards::mission_replies(st, id);
    let prompts: Seq<usize> = cards::place_list(n, asks);
    let replies: Seq<usize> = cards::place_list(n, tells);
    let hints: Seq<Option<usize>> = cards::hints(messages, replies);
    let rules: Rules = cards::live_rules(None, preview);
    let groups: Seq<(Option<usize>, Seq<usize>)> = grouping::groups(prompts, replies, hints);
    assert(tells(idx as int));
    counting::picked_holds(n, tells, idx as int);
    let r: int = counting::picked(n, tells).index_of(idx as int);
    assert(replies[r] == idx);
    grouping::every_reply_has_its_group(prompts, replies, hints, r);
    let place: Option<int> = grouping::parent(prompts, replies[r], grouping::hint_of(hints, r));
    let mine: Seq<usize> = grouping::replies_of(prompts, replies, hints, place);
    let g: int = match place {
        Some(p) => groups.index_of((Some(prompts[p]), mine)),
        None => 0,
    };
    assert(groups[g].1 == mine);
    few_are_picked(replies.len() as int, grouping::answers(prompts, replies, hints, place));
    few_are_picked(n, tells);
    assert(mine.len() <= 48);
    let k: int = mine.index_of(idx);
    let lead: int = if groups[g].0 is Some {
        1
    } else {
        0
    };
    let own: Seq<Card> = cards::group_cards(rules, messages, groups[g]);
    assert(cards::last_few(mine, 48) == mine);
    assert(own[lead + k] == cards::reply_card(rules, messages, idx));
    artifacts::group_cards_are_kept(rules, messages, groups, groups.len() as int, g, lead + k);
    let c: Card = own[lead + k];
    let thread: Seq<Card> = cards::thread_cards(rules, messages, prompts, replies, hints);
    let at: int = thread.index_of(c);
    assert(cards::mission_cards(st, id, preview)[at] == c);
}

/// The changes and the findings that a mission lists are its own.
pub proof fn a_mission_lists_its_own_changes(st: AppState, id: Seq<char>, preview: int, i: int)
    requires
        st.agents.messages@.len() <= usize::MAX,
        st.agents.patches@.len() <= usize::MAX,
        st.agents.evidence@.len() <= usize::MAX,
        0 <= i < cards::mission_cards(st, id, preview).len(),
    ensures
        cards::mission_cards(st, id, preview)[i].reference matches Reference::Patch { idx }
            ==> idx < st.agents.patches@.len() && text::opt_text(
            st.agents.patches@[idx as int].mission_id,
        ) == Some(id),
        cards::mission_cards(st, id, preview)[i].reference matches Reference::Evidence { idx }
            ==> idx < st.agents.evidence@.len() && text::opt_text(
            st.agents.evidence@[idx as int].mission_id,
        ) == Some(id),
{
    let messages: Seq<AgentMessage> = st.agents.messages@;
    let n: int = messages.len() as int;
    let replies: Seq<usize> = cards::place_list(n, cards::mission_replies(st, id));
    let thread: Seq<Card> = cards::thread_cards(
        cards::live_rules(None, preview),
        messages,
        cards::place_list(n, cards::mission_prompts(st, id)),
        replies,
        cards::hints(messages, replies),
    );
    let changed: Seq<usize> = cards::place_list(
        st.agents.patches@.len() as int,
        cards::mission_patches(st, id),
    );
    let noted: Seq<usize> = cards::place_list(
        st.agents.evidence@.len() as int,
        cards::mission_evidence(st, id),
    );
    let second: Seq<Card> = cards::patch_cards(st.agents.patches@, changed);
    if i < thread.len() {
        let idx: usize = thread_card(
            cards::live_rules(None, preview),
            messages,
            cards::mission_prompts(st, id),
            cards::mission_replies(st, id),
            cards::hints(messages, replies),
            i,
        );
        assert(thread[i].reference == (Reference::Message { idx }));
    } else if i < thread.len() + second.len() {
        let k: int = i - thread.len();
        assert(cards::mission_cards(st, id, preview)[i] == second[k]);
        assert(second[k].reference == (Reference::Patch { idx: changed[changed.len() - 1 - k] }));
        artifacts::picked_place(
            st.agents.patches@.len() as int,
            cards::mission_patches(st, id),
            changed.len() - 1 - k,
        );
    } else {
        let k: int = i - thread.len() - second.len();
        let third: Seq<Card> = cards::evidence_cards(st.agents.evidence@, noted);
        assert(cards::mission_cards(st, id, preview)[i] == third[k]);
        assert(third[k].reference == (Reference::Evidence { idx: noted[noted.len() - 1 - k] }));
        artifacts::picked_place(
            st.agents.evidence@.len() as int,
            cards::mission_evidence(st, id),
            noted.len() - 1 - k,
        );
    }
}

/// Every change and every finding of a mission is listed, as long as there are few.
pub proof fn every_change_is_listed(st: AppState, id: Seq<char>, preview: int, idx: usize)
    requires
        st.agents.patches@.len() <= 24,
        st.agents.evidence@.len() <= 24,
    ensures
        idx < st.agents.patches@.len() && text::opt_text(st.agents.patches@[idx as int].mission_id)
            == Some(id) ==> exists|i: int|
            0 <= i < cards::mission_cards(st, id, preview).len() && (
            #[trigger] cards::mission_cards(st, id, preview)[i]).reference == (Reference::Patch {
                idx,
            }),
        idx < st.agents.evidence@.len() && text::opt_text(
            st.agents.evidence@[idx as int].mission_id,
        ) == Some(id) ==> exists|i: int|
            0 <= i < cards::mission_cards(st, id, preview).len() && (
            #[trigger] cards::mission_cards(st, id, preview)[i]).reference == (Reference::Evidence {
                idx,
            }),
{
    let messages: Seq<AgentMessage> = st.agents.messages@;
    let n: int = messages.len() as int;
    let replies: Seq<usize> = cards::place_list(n, cards::mission_replies(st, id));
    let thread: Seq<Card> = cards::thread_cards(
        cards::live_rules(None, preview),
        messages,
        cards::place_list(n, cards::mission_prompts(st, id)),
        replies,
        cards::hints(messages, replies),
    );
    let all: Seq<Card> = cards::mission_cards(st, id, preview);
    let patched = cards::mission_patches(st, id);
    let found = cards::mission_evidence(st, id);
    let p: int = st.agents.patches@.len() as int;
    let e: int = st.agents.evidence@.len() as int;
    let changed: Seq<usize> = cards::place_list(p, patched);
    let noted: Seq<usize> = cards::place_list(e, found);
    let second: Seq<Card> = cards::patch_cards(st.agents.patches@, changed);
    few_are_picked(p, patched);
    few_are_picked(e, found);
    if idx < p && text::opt_text(st.agents.patches@[idx as int].mission_id) == Some(id) {
        assert(patched(idx as int));
        counting::picked_holds(p, patched, idx as int);
        let k: int = counting::picked(p, patched).index_of(idx as int);
        assert(changed[k] == idx);
        let at: int = changed.len() - 1 - k;
        assert(second[at].reference == (Reference::Patch { idx }));
        assert(all[thread.len() + at] == second[at]);
    }
    if idx < e && text::opt_text(st.agents.evidence@[idx as int].mission_id) == Some(id) {
        assert(found(idx as int));
        counting::picked_holds(e, found, idx as int);
        let k: int = counting::picked(e, found).index_of(idx as int);
        assert(noted[k] == idx);
        let at: int = noted.len() - 1 - k;
        let third: Seq<Card> = cards::evidence_cards(st.agents.evidence@, noted);
        assert(third[at].reference == (Reference::Evidence { idx }));
        assert(all[thread.len() + second.len() + at] == third[at]);
    }
}

/// The artifacts of a saved mission are those of the run that are the mission's own.
pub proof fn a_saved_mission_lists_its_own(
    run: PersistedArtifactsRun,
    id: Seq<char>,
    preview: int,
    i: int,
)
    requires
        run.messages@.len() <= usize::MAX,
        run.patches@.len() <= usize::MAX,
        run.evidence@.len() <= usize::MAX,
        0 <= i < saved_cards::mission_cards(run, id, preview).len(),
    ensures
        ({
            let c: Card = saved_cards::mission_cards(run, id, preview)[i];
            &&& c.reference is PersistedMessage || c.reference is PersistedPatch || c.reference
                is PersistedEvidence
            &&& c.reference matches Reference::PersistedMessage { message } ==> {
                &&& run.messages@.contains(message)
                &&& text::opt_text(message.mission_id) == Some(id)
                &&& message.agent_id is None <==> c.kind == "PROMPT"@
                &&& message.agent_id is Some ==> c.owner == message.agent_id->0@
            }
            &&& c.reference matches Reference::PersistedPatch { patch, path } ==> {
                &&& run.patches@.contains(patch)
                &&& text::opt_text(patch.mission_id) == Some(id)
                &&& path == Some(
                    ".nit/agents/runs/"@ + id + "/patches/"@ + history::sanitized(patch.id@)
                        + ".diff"@,
                )
            }
            &&& c.reference matches Reference::PersistedEvidence { item } ==> {
                &&& run.evidence@.contains(item)
                &&& text::opt_text(item.mission_id) == Some(id)
            }
        }),
{
    reveal_strlit("PROMPT");
    reveal_strlit("SYNTH");
    reveal_strlit("PLAN");
    reveal_strlit("REPLY");
    let n: int = run.messages@.len() as int;
    let mine = history::mission_message(run, id);
    let both: (Option<usize>, Option<usize>) = saved_cards::plan_and_report(run, id);
    let rules: Rules = cards::saved_rules(None, both.0, both.1, true, preview);
    let asks = saved_cards::asked(run, mine);
    let tells = saved_cards::told(run, mine);
    let thread: Seq<Card> = cards::thread_cards(
        rules,
        run.messages@,
        cards::place_list(n, asks),
        cards::place_list(n, tells),
        Seq::empty(),
    );
    let changed: Seq<usize> = cards::place_list(
        run.patches@.len() as int,
        history::mission_patch(run, id),
    );
    let noted: Seq<usize> = cards::place_list(
        run.evidence@.len() as int,
        history::mission_evidence(run, id),
    );
    let second: Seq<Card> = saved_cards::patch_cards(run, changed, saved_cards::mission_dir(id));
    let c: Card = saved_cards::mission_cards(run, id, preview)[i];
    if i < thread.len() {
        let idx: usize = thread_card(rules, run.messages@, asks, tells, Seq::empty(), i);
        assert(c.reference == (Reference::PersistedMessage { message: run.messages@[idx as int] }));
        assert("PROMPT"@.len() != "SYNTH"@.len());
        assert("PROMPT"@.len() != "PLAN"@.len());
        assert("PROMPT"@.len() != "REPLY"@.len());
    } else if i < thread.len() + second.len() {
        let k: int = i - thread.len();
        assert(c == second[k]);
        let at: int = changed.len() - 1 - k;
        artifacts::picked_place(run.patches@.len() as int, history::mission_patch(run, id), at);
        assert(c == saved_cards::patch_card(
            run.patches@[changed[at] as int],
            saved_cards::mission_dir(id),
        ));
        assert(run.patches@.contains(run.patches@[changed[at] as int]));
        assert(saved_cards::mission_dir(id) + history::sanitized(
            run.patches@[changed[at] as int].id@,
        ) + ".diff"@ =~= ".nit/agents/runs/"@ + id + "/patches/"@ + history::sanitized(
            run.patches@[changed[at] as int].id@,
        ) + ".diff"@);
    } else {
        let k: int = i - thread.len() - second.len();
        let third: Seq<Card> = saved_cards::evidence_cards(run, noted);
        assert(c == third[k]);
        let at: int = noted.len() - 1 - k;
        artifacts::picked_place(run.evidence@.len() as int, history::mission_evidence(run, id), at);
        assert(c == saved_cards::evidence_card(run.evidence@[noted[at] as int]));
        assert(run.evidence@.contains(run.evidence@[noted[at] as int]));
    }
}

proof fn last_task_that_wrote(
    tasks: Seq<SwarmTaskPersistenceView>,
    agent: Seq<char>,
    said: Seq<char>,
    n: int,
)
    requires
        0 <= n <= tasks.len(),
    ensures
        match context_cards::task_that_wrote(tasks, agent, said, n) {
            Some(k) => 0 <= k < n && tasks[k].agent_id@ == agent && text::opt_text(tasks[k].output)
                == Some(said) && forall|j: int|
                k < j < n ==> !((#[trigger] tasks[j]).agent_id@ == agent && text::opt_text(
                    tasks[j].output,
                ) == Some(said)),
            None => forall|j: int|
                0 <= j < n ==> !((#[trigger] tasks[j]).agent_id@ == agent && text::opt_text(
                    tasks[j].output,
                ) == Some(said)),
        },
    decreases n,
{
    if n > 0 {
        last_task_that_wrote(tasks, agent, said, n - 1);
    }
}

proof fn card_told_apart(
    messages: Seq<AgentMessage>,
    view: SwarmPersistenceView,
    v: Seq<Card>,
    n: int,
    i: int,
)
    requires
        0 <= i < n <= v.len(),
    ensures
        context_cards::all_told_apart(messages, view, v, n).0.len() == n,
        context_cards::all_told_apart(messages, view, v, n).0[i] == context_cards::told_apart(
            messages,
            view,
            v[i],
            context_cards::all_told_apart(messages, view, v, i).1,
        ).0,
    decreases n,
{
    context_cards::telling_apart_keeps_cards(messages, view, v, n);
    context_cards::telling_apart_keeps_cards(messages, view, v, n - 1);
    if i < n - 1 {
        card_told_apart(messages, view, v, n - 1, i);
    }
}

/// A reply in a swarm that is the output of a task, from the agent of the task, is listed as that
/// task.
pub proof fn outputs_are_listed_as_their_task(
    messages: Seq<AgentMessage>,
    view: SwarmPersistenceView,
    v: Seq<Card>,
    i: int,
    idx: usize,
    k: int,
)
    requires
        0 <= i < v.len(),
        v[i].kind == "REPLY"@,
        v[i].reference == (Reference::Message { idx }),
        idx < messages.len(),
        messages[idx as int].agent_id is Some,
        0 <= k < view.tasks@.len(),
        view.tasks@[k].agent_id@ == messages[idx as int].agent_id->0@,
        view.tasks@[k].output is Some,
        view.tasks@[k].output->0@ == messages[idx as int].text@,
        forall|j: int|
            k < j < view.tasks@.len() ==> (#[trigger] view.tasks@[j]).agent_id@
                != messages[idx as int].agent_id->0@,
    ensures
        ({
            let c: Card = context_cards::all_told_apart(
                messages,
                view,
                v,
                v.len() as int,
            ).0[i];
            &&& c.kind == "TASK"@
            &&& c.reference == (Reference::SwarmTask {
                mission_id: view.mission_id@,
                task_id: view.tasks@[k].id@,
            })
            &&& c.owner == v[i].owner
            &&& c.preview == v[i].preview
        }),
{
    card_told_apart(messages, view, v, v.len() as int, i);
    let m: AgentMessage = messages[idx as int];
    last_task_that_wrote(view.tasks@, m.agent_id->0@, m.text@, view.tasks@.len() as int);
    let found: int = context_cards::task_that_wrote(
        view.tasks@,
        m.agent_id->0@,
        m.text@,
        view.tasks@.len() as int,
    )->0;
    assert(found == k) by {
        assert(view.tasks@[k].agent_id@ == m.agent_id->0@);
        assert(view.tasks@[found].agent_id@ == m.agent_id->0@);
    }
}

/// Prompts, changes and findings stay what they are in a swarm, and so does a reply that is the
/// output of no task, unless it is the first of those: that one is the plan.
pub proof fn other_cards_of_a_swarm_stay(
    messages: Seq<AgentMessage>,
    view: SwarmPersistenceView,
    v: Seq<Card>,
    i: int,
)
    requires
        0 <= i < v.len(),
    ensures
        ({
            let c: Card = context_cards::all_told_apart(
                messages,
                view,
                v,
                v.len() as int,
            ).0[i];
            &&& v[i].kind != "REPLY"@ || v[i].reference !is Message ==> c == v[i]
            &&& c.kind == v[i].kind || c.kind == "TASK"@ || c.kind == "PLAN"@
            &&& c.kind == "PLAN"@ && v[i].kind != "PLAN"@ ==> c.reference == v[i].reference
        }),
{
    card_told_apart(messages, view, v, v.len() as int, i);
    reveal_strlit("TASK");
    reveal_strlit("PLAN");
    assert("TASK"@[0] == 'T');
    assert("PLAN"@[0] == 'P');
}

/// A swarm that has been checked lists the outcome first, and one that has reported lists the
/// report last.
pub proof fn reports_of_a_swarm_are_listed(
    st: AppState,
    view: SwarmPersistenceView,
    id: Seq<char>,
    preview: int,
)
    ensures
        ({
            let all: Seq<Card> = context_cards::swarm_cards(st, view, id, preview);
            &&& view.report_output is Some ==> all.len() > 0 && all.last().kind == "REPORT"@
                && all.last().reference == (Reference::SwarmReport { mission_id: view.mission_id@ })
            &&& view.gate_bundle is Some || view.gate_report is Some || view.gate_output is Some
                ==> all.len() > 0 && all[0].kind == "VERIFY"@ && all[0].reference == (
            Reference::SwarmVerify { mission_id: view.mission_id@ })
            &&& view.gate_report is Some ==> (if view.gate_report->0.overall_ok {
                all[0].at == "PASS"@
            } else {
                all[0].at == "FAIL"@
            })
            &&& view.gate_report is None && view.gate_bundle is Some ==> all[0].at == "PENDING"@
        }),
{
    let thread: Seq<Card> = cards::mission_cards(st, id, preview);
    context_cards::telling_apart_keeps_cards(
        st.agents.messages@,
        view,
        thread,
        thread.len() as int,
    );
}

/// Every task of a swarm that has put something out, or should have, has its card.
pub proof fn every_finished_task_has_its_card(
    view: SwarmPersistenceView,
    preview: int,
    n: int,
    k: int,
)
    requires
        0 <= k < n <= view.tasks@.len(),
        view.tasks@[k].output_present || view.tasks@[k].expected_artifacts_missing,
    ensures
        exists|i: int|
            0 <= i < context_cards::task_cards(view, preview, n).len() && (
            #[trigger] context_cards::task_cards(view, preview, n)[i]).reference == (
            Reference::SwarmTask {
                mission_id: view.mission_id@,
                task_id: view.tasks@[k].id@,
            }) && context_cards::task_cards(view, preview, n)[i].owner == view.tasks@[k].agent_id@
                && context_cards::task_cards(view, preview, n)[i].at == view.tasks@[k].state@,
    decreases n,
{
    let before: Seq<Card> = context_cards::task_cards(view, preview, n - 1);
    let all: Seq<Card> = context_cards::task_cards(view, preview, n);
    if k == n - 1 {
        assert(all[before.len() as int] == context_cards::task_card(view, view.tasks@[k], preview));
    } else {
        every_finished_task_has_its_card(view, preview, n - 1, k);
        let i: int = choose|i: int|
            0 <= i < before.len() && (#[trigger] before[i]).reference == (Reference::SwarmTask {
                mission_id: view.mission_id@,
                task_id: view.tasks@[k].id@,
            }) && before[i].owner == view.tasks@[k].agent_id@ && before[i].at
                == view.tasks@[k].state@;
        assert(all[i] == before[i]);
    }
}

proof fn first_entry(v: Seq<history::RunEntry>, path: Option<Seq<char>>, i: int)
    requires
        0 <= i,
    ensures
        match history::entry_from(v, path, i) {
            Some(k) => i <= k < v.len() && v[k].run_path == path && forall|j: int|
                i <= j < k ==> (#[trigger] v[j]).run_path != path,
            None => forall|j: int| i <= j < v.len() ==> (#[trigger] v[j]).run_path != path,
        },
    decreases v.len() - i,
{
    if i < v.len() && v[i].run_path != path {
        first_entry(v, path, i + 1);
    }
}

/// The archived run that is selected is the one whose artifacts are listed, whatever is live.
pub proof fn the_selected_archive_is_listed(
    st: AppState,
    swarm: Option<&SwarmRuntime>,
    preview: int,
    a: int,
)
    requires
        0 <= a < st.saved.archives@.len() <= usize::MAX,
        st.agents.artifacts_selected_saved_run_path is Some,
        st.saved.archives@[a].run_path@ == st.agents.artifacts_selected_saved_run_path->0@,
        forall|b: int|
            0 <= b < st.saved.archives@.len() && b != a ==> (
            #[trigger] st.saved.archives@[b]).run_path@
                != st.agents.artifacts_selected_saved_run_path->0@,
    ensures
        st.agents.context_mission is Some ==> context_cards::context_cards(st, swarm, preview)
            == saved_cards::mission_cards(
            st.saved.archives@[a].run,
            st.agents.context_mission->0@,
            preview,
        ),
        st.agents.context_mission is None && st.agents.context_agent is Some
            ==> context_cards::context_cards(st, swarm, preview) == saved_cards::ad_hoc_cards(
            st.saved.archives@[a].run,
            st.agents.context_agent->0@,
            preview,
        ),
{
    if history::in_context(st) {
        let path: Option<Seq<char>> = Some(st.agents.artifacts_selected_saved_run_path->0@);
        let v: Seq<history::RunEntry> = history::entries(st);
        first_entry(v, path, 0);
        saved_runs::every_archive_is_listed(st, a);
        let k: int = choose|k: int| 1 <= k < v.len() && (#[trigger] v[k]).run_path == path;
        let found: int = history::entry_from(v, path, 0)->0;
        assert(v[k].run_path == path);
        assert(v[0].run_path is None);
        assert(found >= 1);
        let names: Seq<Seq<char>> = history::archive_names(st);
        order::names_are_sorted(names, names.len() as int);
        let b: int = order::last_name_first(names)[found - 1] as int;
        assert(history::archive_at(st, found - 1) == st.saved.archives@[b]);
        assert(v[found].run_path == Some(st.saved.archives@[b].run_path@));
        assert(b == a);
    }
}

/// Nothing is listed where neither a mission nor an agent is chosen.
pub proof fn nothing_is_listed_without_a_choice(
    st: AppState,
    swarm: Option<&SwarmRuntime>,
    preview: int,
)
    requires
        st.agents.context_mission is None,
        st.agents.context_agent is None,
    ensures
        context_cards::context_cards(st, swarm, preview).len() == 0,
{
}

proof fn first_card(v: Seq<Card>, r: Reference, i: int)
    requires
        0 <= i,
    ensures
        match popup::card_from(v, r, i) {
            Some(k) => i <= k < v.len() && v[k].reference == r && forall|j: int|
                i <= j < k ==> (#[trigger] v[j]).reference != r,
            None => forall|j: int| i <= j < v.len() ==> (#[trigger] v[j]).reference != r,
        },
    decreases v.len() - i,
{
    if i < v.len() && v[i].reference != r {
        first_card(v, r, i + 1);
    }
}

/// A card is found by what it refers to: the first one that does, and none only where no card does.
pub proof fn cards_are_found_by_what_they_refer_to(v: Seq<Card>, r: Reference)
    ensures
        match popup::card_of(v, r) {
            Some(k) => 0 <= k < v.len() && v[k].reference == r && forall|j: int|
                0 <= j < k ==> (#[trigger] v[j]).reference != r,
            None => forall|j: int| 0 <= j < v.len() ==> (#[trigger] v[j]).reference != r,
        },
{
    first_card(v, r, 0);
}

/// What an agent said outside of a swarm is opened as itself; in a swarm the report is opened as
/// the report, and the output of a task as the task.
pub proof fn messages_are_opened_as_what_they_are(
    st: AppState,
    swarm: Option<&SwarmRuntime>,
    width: int,
    idx: usize,
)
    requires
        idx < st.agents.messages@.len(),
        st.agents.messages@[idx as int].agent_id is Some,
    ensures
        ({
            let m: AgentMessage = st.agents.messages@[idx as int];
            let r: Option<Reference> = popup::popup_of_message(st, swarm, width, idx);
            &&& m.mission_id is None || swarm is None ==> r == Some(Reference::Message { idx })
            &&& m.mission_id is Some && swarm is Some && state::value_of(
                swarm->0.persistence@,
                m.mission_id->0@,
            ) is Some ==> {
                let view: SwarmPersistenceView = state::value_of(
                    swarm->0.persistence@,
                    m.mission_id->0@,
                )->0;
                &&& text::opt_text(view.report_output) == Some(m.text@) && (view.report_agent_id
                    is None || view.report_agent_id->0@ == m.agent_id->0@) ==> r == Some(
                    Reference::SwarmReport { mission_id: m.mission_id->0@ },
                )
                &&& r matches Some(Reference::SwarmTask { mission_id, task_id }) ==> mission_id
                    == m.mission_id->0@ && exists|k: int|
                    0 <= k < view.tasks@.len() && (#[trigger] view.tasks@[k]).id@ == task_id
                        && view.tasks@[k].agent_id@ == m.agent_id->0@ && text::opt_text(
                        view.tasks@[k].output,
                    ) == Some(m.text@)
            }
        }),
{
    let m: AgentMessage = st.agents.messages@[idx as int];
    if m.mission_id is Some && swarm is Some && state::value_of(
        swarm->0.persistence@,
        m.mission_id->0@,
    ) is Some {
        let view: SwarmPersistenceView = state::value_of(
            swarm->0.persistence@,
            m.mission_id->0@,
        )->0;
        last_task_that_wrote(view.tasks@, m.agent_id->0@, m.text@, view.tasks@.len() as int);
    }
}

/// The message that is opened is shown with its text at the end, in full.
pub proof fn opened_messages_show_their_text(
    st: AppState,
    swarm: SwarmRuntime,
    idx: usize,
    width: int,
)
    requires
        idx < st.agents.messages@.len(),
    ensures
        ({
            let body: (Seq<Seq<char>>, bool) = popup::body_lines(
                st,
                swarm,
                Reference::Message { idx },
                width,
            );
            let said: Seq<Seq<char>> = swarm_details::indented(
                st.agents.messages@[idx as int].text@,
                width,
            );
            &&& body.1
            &&& body.0.len() >= said.len()
            &&& body.0.skip(body.0.len() - said.len()) == said
        }),
{
    reveal(popup::body_lines);
    reveal(popup::message_lines);
    let body: Seq<Seq<char>> = popup::body_lines(st, swarm, Reference::Message { idx }, width).0;
    let said: Seq<Seq<char>> = swarm_details::indented(
        st.agents.messages@[idx as int].text@,
        width,
    );
    assert(body.skip(body.len() - said.len()) =~= said);
}

/// The change that is opened is shown with the start of its own difference.
pub proof fn opened_changes_show_their_difference(
    st: AppState,
    swarm: SwarmRuntime,
    idx: usize,
    width: int,
)
    requires
        idx < st.agents.patches@.len(),
    ensures
        ({
            let body: (Seq<Seq<char>>, bool) = popup::body_lines(
                st,
                swarm,
                Reference::Patch { idx },
                width,
            );
            let diff: Seq<Seq<char>> = swarm_details::excerpt(
                st.agents.patches@[idx as int].diff@,
                180,
                "diff"@,
                width,
            );
            &&& body.1
            &&& body.0.len() >= diff.len()
            &&& body.0.skip(body.0.len() - diff.len()) == diff
        }),
{
    reveal(popup::body_lines);
    reveal(popup::patch_lines);
    let body: Seq<Seq<char>> = popup::body_lines(st, swarm, Reference::Patch { idx }, width).0;
    let diff: Seq<Seq<char>> = swarm_details::excerpt(
        st.agents.patches@[idx as int].diff@,
        180,
        "diff"@,
        width,
    );
    assert(body.skip(body.len() - diff.len()) =~= diff);
}

proof fn first_task(tasks: Seq<SwarmTaskPersistenceView>, id: Seq<char>, i: int)
    requires
        0 <= i,
    ensures
        match popup::task_from(tasks, id, i) {
            Some(k) => i <= k < tasks.len() && tasks[k].id@ == id && forall|j: int|
                i <= j < k ==> (#[trigger] tasks[j]).id@ != id,
            None => forall|j: int| i <= j < tasks.len() ==> (#[trigger] tasks[j]).id@ != id,
        },
    decreases tasks.len() - i,
{
    if i < tasks.len() && tasks[i].id@ != id {
        first_task(tasks, id, i + 1);
    }
}

/// The task that is opened is shown by its own details.
pub proof fn opened_tasks_show_their_details(
    st: AppState,
    swarm: SwarmRuntime,
    mission: Seq<char>,
    k: int,
    width: int,
)
    requires
        state::value_of(swarm.persistence@, mission) is Some,
        0 <= k < state::value_of(swarm.persistence@, mission)->0.tasks@.len(),
        forall|j: int|
            0 <= j < k ==> (#[trigger] state::value_of(
                swarm.persistence@,
                mission,
            )->0.tasks@[j]).id@ != state::value_of(swarm.persistence@, mission)->0.tasks@[k].id@,
    ensures
        ({
            let view: SwarmPersistenceView = state::value_of(swarm.persistence@, mission)->0;
            popup::body_lines(
                st,
                swarm,
                Reference::SwarmTask { mission_id: mission, task_id: view.tasks@[k].id@ },
                width,
            ) == (
                swarm_details::task_details(
                    st.agents.role_names@,
                    view,
                    view.tasks@[k],
                    width,
                ),
                true,
            )
        }),
{
    reveal(popup::body_lines);
    let view: SwarmPersistenceView = state::value_of(swarm.persistence@, mission)->0;
    first_task(view.tasks@, view.tasks@[k].id@, 0);
    let found: int = popup::task_from(view.tasks@, view.tasks@[k].id@, 0)->0;
    assert(found == k) by {
        assert(view.tasks@[found].id@ == view.tasks@[k].id@);
    }
}

} // verus!
