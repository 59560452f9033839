//! Which messages a transcript shows, in which order, and what is said of them.

use vstd::prelude::*;

use crate::agent_console_view::messages;
use crate::agent_console_view::rows;
use crate::agent_console_view::rows::Row;
use crate::agent_ops_view::popup;
use crate::fit;
use crate::laws::wrapping;
use crate::state::AgentMessage;
use crate::state::AppState;
use crate::state::SwarmRuntime;
use crate::text;
use crate::wrap;

verus! {

proof fn shown_where_visible(
    st: AppState,
    mission: Option<Seq<char>>,
    agent: Option<Seq<char>>,
    i: int,
)
    ensures
        messages::grouped(st, mission, agent).contains(i) <==> messages::visible(
            st,
            mission,
            agent,
            i,
        ),
{
    let order: Seq<int> = messages::grouped(st, mission, agent);
    if messages::visible(st, mission, agent, i) {
        let k: int = messages::visible_are_shown(st, mission, agent, i);
        assert(order[k] == i);
    }
    if order.contains(i) {
        let k: int = order.index_of(i);
        messages::messages_are_shown_once(st, mission, agent, k);
    }
}

/// Where a mission is chosen, the transcript shows the messages of that mission and those to
/// everybody, and none of another mission, whichever agent is chosen beside it.
pub proof fn a_mission_shows_its_own_messages(
    st: AppState,
    mission: Seq<char>,
    agent: Option<Seq<char>>,
    i: int,
)
    requires
        0 <= i < st.agents.messages@.len(),
    ensures
        messages::grouped(st, Some(mission), agent).contains(i) <==> st.agents.messages@[i].broadcast
            || (st.agents.messages@[i].mission_id is Some
            && st.agents.messages@[i].mission_id->0@ == mission),
{
    shown_where_visible(st, Some(mission), agent, i);
}

/// Where an agent is chosen and no mission, the transcript shows what the user said, what was said
/// to everybody, and of the agents what this one or a chat copy of it said, and nothing else.
pub proof fn an_agent_shows_its_own_messages(st: AppState, agent: Seq<char>, i: int)
    requires
        0 <= i < st.agents.messages@.len(),
    ensures
        messages::grouped(st, None, Some(agent)).contains(i) <==> {
            ||| st.agents.messages@[i].broadcast
            ||| st.agents.messages@[i].agent_id is None
            ||| st.agents.messages@[i].agent_id->0@ == agent
            ||| st.agents.chat_clones.base(st.agents.messages@[i].agent_id->0@) == Some(agent)
        },
{
    shown_where_visible(st, None, Some(agent), i);
}

/// Where nothing is chosen, every message is shown.
pub proof fn everything_is_shown_without_a_choice(st: AppState, i: int)
    requires
        0 <= i < st.agents.messages@.len(),
    ensures
        messages::grouped(st, None, None).contains(i),
{
    shown_where_visible(st, None, None, i);
}

/// Only messages are shown, and none of them twice.
pub proof fn only_messages_are_shown(
    st: AppState,
    mission: Option<Seq<char>>,
    agent: Option<Seq<char>>,
    j: int,
    k: int,
)
    requires
        0 <= j < k < messages::grouped(st, mission, agent).len(),
    ensures
        0 <= messages::grouped(st, mission, agent)[j] < st.agents.messages@.len(),
        0 <= messages::grouped(st, mission, agent)[k] < st.agents.messages@.len(),
        messages::grouped(st, mission, agent)[j] != messages::grouped(st, mission, agent)[k],
{
    messages::messages_are_shown_once(st, mission, agent, j);
    messages::messages_are_shown_once(st, mission, agent, k);
}

/// Between a prompt and an answer to it stand other answers to it alone, and the prompt comes first.
pub proof fn answers_stand_below_their_prompt(
    st: AppState,
    mission: Option<Seq<char>>,
    agent: Option<Seq<char>>,
    at_prompt: int,
    at_answer: int,
    between: int,
)
    requires
        0 <= at_prompt < messages::grouped(st, mission, agent).len(),
        0 <= at_answer < messages::grouped(st, mission, agent).len(),
        ({
            let order: Seq<int> = messages::grouped(st, mission, agent);
            let answer: AgentMessage = st.agents.messages@[order[at_answer]];
            &&& st.agents.messages@[order[at_prompt]].agent_id is None
            &&& answer.agent_id is Some
            &&& answer.prompt_msg_idx is Some
            &&& answer.prompt_msg_idx->0 == order[at_prompt]
        }),
        at_prompt < between < at_answer,
    ensures
        ({
            let order: Seq<int> = messages::grouped(st, mission, agent);
            let other: AgentMessage = st.agents.messages@[order[between]];
            other.agent_id is Some && other.prompt_msg_idx is Some && other.prompt_msg_idx->0
                == order[at_prompt] && order[between] < order[at_answer]
        }),
{
    let order: Seq<int> = messages::grouped(st, mission, agent);
    messages::messages_are_shown_once(st, mission, agent, at_prompt);
    messages::messages_are_shown_once(st, mission, agent, between);
    messages::messages_are_shown_once(st, mission, agent, at_answer);
    messages::answers_follow_their_prompt(st, mission, agent, at_prompt, between);
    messages::answers_follow_their_prompt(st, mission, agent, between, at_answer);
    messages::answers_follow_their_prompt(st, mission, agent, at_prompt, at_answer);
}

/// An answer never stands above the prompt that it answers, where both are shown.
pub proof fn prompts_come_before_their_answers(
    st: AppState,
    mission: Option<Seq<char>>,
    agent: Option<Seq<char>>,
    at_prompt: int,
    at_answer: int,
)
    requires
        0 <= at_prompt < messages::grouped(st, mission, agent).len(),
        0 <= at_answer < messages::grouped(st, mission, agent).len(),
        ({
            let order: Seq<int> = messages::grouped(st, mission, agent);
            let answer: AgentMessage = st.agents.messages@[order[at_answer]];
            &&& st.agents.messages@[order[at_prompt]].agent_id is None
            &&& answer.agent_id is Some
            &&& answer.prompt_msg_idx is Some
            &&& answer.prompt_msg_idx->0 == order[at_prompt]
        }),
    ensures
        at_prompt < at_answer,
{
    messages::messages_are_shown_once(st, mission, agent, at_prompt);
    messages::messages_are_shown_once(st, mission, agent, at_answer);
    if at_answer < at_prompt {
        messages::answers_follow_their_prompt(st, mission, agent, at_answer, at_prompt);
    }
}

/// Prompts, and messages that answer no prompt in particular, stand in the order in which they were
/// said.
pub proof fn other_messages_keep_their_order(
    st: AppState,
    mission: Option<Seq<char>>,
    agent: Option<Seq<char>>,
    j: int,
    k: int,
)
    requires
        0 <= j < k < messages::grouped(st, mission, agent).len(),
        ({
            let a: AgentMessage = st.agents.messages@[messages::grouped(st, mission, agent)[j]];
            let b: AgentMessage = st.agents.messages@[messages::grouped(st, mission, agent)[k]];
            &&& a.agent_id is None || a.prompt_msg_idx is None
            &&& b.agent_id is None || b.prompt_msg_idx is None
        }),
    ensures
        messages::grouped(st, mission, agent)[j] < messages::grouped(st, mission, agent)[k],
{
    messages::answers_follow_their_prompt(st, mission, agent, j, k);
}

proof fn bubble_lines_keep(lines: Seq<Seq<char>>, width: int, n: int)
    requires
        width >= 4,
        0 <= n <= lines.len(),
        forall|i: int|
            0 <= i < lines.len() ==> (#[trigger] lines[i]).len() <= width - 3 && wrapping::narrow(
                lines[i],
            ),
    ensures
        wrapping::dark(text::run_together(messages::bubble_lines(lines, width).take(n)))
            == wrapping::dark(text::run_together(lines.take(n))),
    decreases n,
{
    let all: Seq<Seq<char>> = messages::bubble_lines(lines, width);
    if n > 0 {
        bubble_lines_keep(lines, width, n - 1);
        let indent: Seq<char> = text::fill(' ', 2);
        let row: Seq<char> = indent + lines[n - 1];
        assert(wrapping::narrow(row));
        wrapping::fitting_rows_are_padded_with_spaces(row, width);
        wrapping::white_is_not_dark(indent);
        wrapping::dark_add(indent, lines[n - 1]);
        assert(Seq::<char>::empty() + wrapping::dark(lines[n - 1]) =~= wrapping::dark(
            lines[n - 1],
        ));
        assert(all.take(n) =~= all.take(n - 1).push(all[n - 1]));
        assert(lines.take(n) =~= lines.take(n - 1).push(lines[n - 1]));
        wrap::run_together_push(all.take(n - 1), all[n - 1]);
        wrap::run_together_push(lines.take(n - 1), lines[n - 1]);
        wrapping::dark_add(text::run_together(all.take(n - 1)), all[n - 1]);
        wrapping::dark_add(text::run_together(lines.take(n - 1)), lines[n - 1]);
    } else {
        assert(all.take(0) =~= lines.take(0));
    }
}

proof fn wrapped_bubble_keeps(s: Seq<char>, width: int)
    requires
        width >= 4,
        wrapping::narrow(s),
    ensures
        wrapping::dark(
            text::run_together(
                messages::bubble_lines(
                    wrap::visual_lines(s, messages::bubble_width(width)),
                    width,
                ),
            ),
        ) == wrapping::dark(s),
{
    let lines: Seq<Seq<char>> = wrap::visual_lines(s, width - 3);
    let n: int = lines.len() as int;
    assert forall|i: int| 0 <= i < lines.len() implies (#[trigger] lines[i]).len() <= width - 3
        && wrapping::narrow(lines[i]) by {
        wrapping::rows_fit(s, width - 3, i);
    }
    bubble_lines_keep(lines, width, n);
    let all: Seq<Seq<char>> = messages::bubble_lines(lines, width);
    assert(all.take(n) =~= all);
    assert(lines.take(n) =~= lines);
    wrapping::rows_keep_every_letter(s, width - 3);
}

proof fn bubble_text_keeps(parts: Seq<Seq<char>>, width: int, n: int)
    requires
        width >= 4,
        0 <= n <= parts.len(),
        forall|i: int| 0 <= i < parts.len() ==> wrapping::narrow(#[trigger] parts[i]),
    ensures
        wrapping::dark(text::run_together(messages::bubble_text(parts, width, n))) == wrapping::dark(
            text::run_together(parts.take(n)),
        ),
    decreases n,
{
    if n > 0 {
        bubble_text_keeps(parts, width, n - 1);
        let before: Seq<Seq<char>> = messages::bubble_text(parts, width, n - 1);
        let more: Seq<Seq<char>> = messages::bubble_lines(
            wrap::visual_lines(parts[n - 1], messages::bubble_width(width)),
            width,
        );
        wrapping::lists_run_together(before, more);
        wrapping::dark_add(text::run_together(before), text::run_together(more));
        wrapped_bubble_keeps(parts[n - 1], width);
        assert(parts.take(n) =~= parts.take(n - 1).push(parts[n - 1]));
        wrap::run_together_push(parts.take(n - 1), parts[n - 1]);
        wrapping::dark_add(text::run_together(parts.take(n - 1)), parts[n - 1]);
    } else {
        assert(parts.take(0) =~= Seq::<Seq<char>>::empty());
    }
}

/// What the user wrote is shown whole: run together, the rows of a prompt hold the user's name and
/// everything of the prompt but its blanks, in its order.
pub proof fn prompts_are_shown_whole(
    st: AppState,
    swarm: Option<&SwarmRuntime>,
    idx: int,
    width: int,
)
    requires
        st.agents.messages@[idx].agent_id is None,
        wrapping::narrow(st.agents.messages@[idx].text@),
        width >= 4,
    ensures
        wrapping::dark(
            text::run_together(rows::texts_of(messages::message_rows(st, swarm, idx, width))),
        ) == wrapping::dark("You"@ + st.agents.messages@[idx].text@),
        forall|k: int|
            0 <= k < messages::message_rows(st, swarm, idx, width).len()
                ==> (#[trigger] messages::message_rows(st, swarm, idx, width)[k]).kind is User,
{
    reveal_strlit("You");
    let s: Seq<char> = st.agents.messages@[idx].text@;
    let all: Seq<Seq<char>> = messages::bubble(s, width);
    assert(rows::texts_of(messages::message_rows(st, swarm, idx, width)) =~= all);
    let blank: Seq<char> = fit::padded(text::fill(' ', 2), width);
    let edge: Seq<Seq<char>> = seq![blank];
    let name: Seq<Seq<char>> = messages::bubble_lines(
        wrap::visual_lines("You"@, messages::bubble_width(width)),
        width,
    );
    let parts: Seq<Seq<char>> = messages::message_lines(s);
    let said: Seq<Seq<char>> = messages::bubble_text(parts, width, parts.len() as int);
    assert(all == edge + name + said + edge);
    wrapping::fitting_rows_are_padded_with_spaces(text::fill(' ', 2), width);
    wrapping::white_is_not_dark(text::fill(' ', 2));
    wrapping::one_line_runs_together(blank);
    wrapped_bubble_keeps("You"@, width);
    assert forall|i: int| 0 <= i < parts.len() implies wrapping::narrow(#[trigger] parts[i]) by {
        if s.len() > 0 {
            part_is_narrow(s, i);
        }
    }
    bubble_text_keeps(parts, width, parts.len() as int);
    assert(parts.take(parts.len() as int) =~= parts);
    wrapping::split_lines_keep_every_letter(s);
    if s.len() == 0 {
        wrapping::one_line_runs_together(Seq::<char>::empty());
        assert(s =~= Seq::<char>::empty());
    }
    wrapping::lists_run_together(edge + name + said, edge);
    wrapping::lists_run_together(edge + name, said);
    wrapping::lists_run_together(edge, name);
    let a: Seq<char> = text::run_together(edge);
    let b: Seq<char> = text::run_together(name);
    let c: Seq<char> = text::run_together(said);
    wrapping::dark_add(a + b + c, a);
    wrapping::dark_add(a + b, c);
    wrapping::dark_add(a, b);
    wrapping::dark_add("You"@, s);
    assert(Seq::<char>::empty() + wrapping::dark("You"@) + wrapping::dark(s) + Seq::<char>::empty()
        =~= wrapping::dark("You"@) + wrapping::dark(s));
}

proof fn part_is_narrow(s: Seq<char>, i: int)
    requires
        wrapping::narrow(s),
        0 <= i < text::split_at_char(s, '\n').len(),
    ensures
        wrapping::narrow(text::split_at_char(s, '\n')[i]),
    decreases s.len(),
{
    text::char_at_or_after_is_first(s, '\n', 0);
    match text::position(s, '\n') {
        Some(k) => {
            assert(wrapping::narrow(text::head(s, k)));
            assert(wrapping::narrow(text::tail(s, k + 1)));
            if i > 0 {
                part_is_narrow(text::tail(s, k + 1), i - 1);
            }
        },
        None => {},
    }
}

/// An answer is announced by the agent that gave it: a row names it in brackets, tells where the
/// answer is to everybody, and says that it is done. Where the answer can be opened, the row says so
/// and is a link.
pub proof fn answers_are_announced(
    st: AppState,
    swarm: Option<&SwarmRuntime>,
    idx: int,
    width: int,
)
    requires
        st.agents.messages@[idx].agent_id is Some,
        st.agents.messages@[idx].agent_id->0@ != "swarm"@,
        st.agents.messages@[idx].kind is None,
    ensures
        ({
            let all: Seq<Row> = messages::message_rows(st, swarm, idx, width);
            let told: Seq<char> = "↳ "@ + "["@ + messages::badge(
                st,
                st.agents.messages@[idx].agent_id->0@,
            ) + "]"@ + (if st.agents.messages@[idx].broadcast {
                " @all"@
            } else {
                ""@
            }) + " done"@;
            let link: Seq<char> = told + " (see ARTIFACTS)"@;
            &&& all.len() == 2
            &&& all[1].text.len() == 0
            &&& all[0].kind is ArtifactLink || all[0].kind is Agent
            &&& all[0].kind is ArtifactLink <==> popup::popup_of_message(
                st,
                swarm,
                text::max_int(width, 1),
                idx as usize,
            ) is Some
            &&& all[0].kind is Agent ==> all[0].text == told
            &&& all[0].kind is ArtifactLink ==> all[0].text.len() >= link.len()
                && all[0].text.take(link.len() as int) == link
        }),
{
    let all: Seq<Row> = messages::message_rows(st, swarm, idx, width);
    let told: Seq<char> = "↳ "@ + "["@ + messages::badge(
        st,
        st.agents.messages@[idx].agent_id->0@,
    ) + "]"@ + (if st.agents.messages@[idx].broadcast {
        " @all"@
    } else {
        ""@
    }) + " done"@;
    let link: Seq<char> = told + " (see ARTIFACTS)"@;
    if all[0].kind is ArtifactLink {
        assert(all[0].text.take(link.len() as int) =~= link);
    }
}

/// What the swarm announces of itself or to everybody is not shown; everything else has a row.
pub proof fn only_announcements_of_the_swarm_are_left_out(
    st: AppState,
    swarm: Option<&SwarmRuntime>,
    idx: int,
    width: int,
)
    requires
        st.agents.messages@[idx].kind is None,
    ensures
        messages::message_rows(st, swarm, idx, width).len() == 0 <==> {
            let m: AgentMessage = st.agents.messages@[idx];
            &&& m.agent_id is Some
            &&& m.agent_id->0@ == "swarm"@
            &&& m.broadcast || (m.text@.len() >= 6 && m.text@.take(6) == "Swarm "@)
        },
{
    reveal_strlit("Swarm ");
    let s: Seq<char> = st.agents.messages@[idx].text@;
    if s.len() >= 6 {
        assert(s.take(6) =~= s.subrange(0, 6));
    }
}

} // verus!
