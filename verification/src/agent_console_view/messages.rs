//! The messages of the transcript: which are shown, in which order and as which rows.

use vstd::prelude::*;

use crate::agent_console_view::rows;
use crate::agent_console_view::rows::Row;
use crate::agent_console_view::rows::ThreadRow;
use crate::agent_console_view::rows::ThreadRowKind;
use crate::agent_console_view::turns;
use crate::agent_ops_view::popup;
use crate::clone_labels;
use crate::counting;
use crate::fit;
use crate::state;
use crate::state::AgentLane;
use crate::state::AgentMessage;
use crate::state::AppState;
use crate::state::SwarmRuntime;
use crate::text;
use crate::wrap;

verus! {

/// Whether a message is shown where a mission or an agent is chosen.
pub open spec fn in_context(
    st: AppState,
    msg: AgentMessage,
    mission: Option<Seq<char>>,
    agent: Option<Seq<char>>,
) -> bool {
    match (mission, agent) {
        (Some(m), _) => text::opt_text(msg.mission_id) == Some(m) || msg.broadcast,
        (None, Some(a)) => msg.broadcast || (match msg.agent_id {
            Some(id) => turns::is_or_copies(st, id@, a),
            None => true,
        }),
        (None, None) => true,
    }
}

pub fn message_matches_context(
    st: &AppState,
    msg: &AgentMessage,
    mission: Option<&str>,
    agent: Option<&str>,
) -> (r: bool)
    ensures
        r == in_context(*st, *msg, text::opt_str(mission), text::opt_str(agent)),
{
    match (mission, agent) {
        (Some(m), _) => text::opt_str_eq(&msg.mission_id, m) || msg.broadcast,
        (None, Some(a)) => msg.broadcast || (match &msg.agent_id {
            Some(id) => turns::is_same_or_copy(st, id.as_str(), a),
            None => true,
        }),
        (None, None) => true,
    }
}

/// Whether the message at `i` is shown.
pub open spec fn visible(
    st: AppState,
    mission: Option<Seq<char>>,
    agent: Option<Seq<char>>,
    i: int,
) -> bool {
    0 <= i < st.agents.messages@.len() && in_context(st, st.agents.messages@[i], mission, agent)
}

/// The prompt below which the message at `i` is shown: the one that it answers, where that is
/// shown.
pub open spec fn parent(
    st: AppState,
    mission: Option<Seq<char>>,
    agent: Option<Seq<char>>,
    i: int,
) -> Option<int> {
    let msg: AgentMessage = st.agents.messages@[i];
    match msg.prompt_msg_idx {
        Some(p) if msg.agent_id is Some && visible(st, mission, agent, p as int)
            && st.agents.messages@[p as int].agent_id is None => Some(p as int),
        _ => None,
    }
}

/// Tells the shown messages that stand below the prompt at `p`.
pub open spec fn answers(
    st: AppState,
    mission: Option<Seq<char>>,
    agent: Option<Seq<char>>,
    p: int,
) -> spec_fn(int) -> bool {
    |i: int| visible(st, mission, agent, i) && parent(st, mission, agent, i) == Some(p)
}

/// The shown messages among the first `n`, answers right below their prompt.
pub open spec fn grouped_upto(
    st: AppState,
    mission: Option<Seq<char>>,
    agent: Option<Seq<char>>,
    n: int,
) -> Seq<int>
    decreases n,
{
    if n <= 0 {
        Seq::empty()
    } else {
        let before: Seq<int> = grouped_upto(st, mission, agent, n - 1);
        if visible(st, mission, agent, n - 1) && parent(st, mission, agent, n - 1) is None {
            before.push(n - 1) + counting::picked(
                st.agents.messages@.len() as int,
                answers(st, mission, agent, n - 1),
            )
        } else {
            before
        }
    }
}

/// The messages that are shown, in the order in which they are.
pub open spec fn grouped(
    st: AppState,
    mission: Option<Seq<char>>,
    agent: Option<Seq<char>>,
) -> Seq<int> {
    grouped_upto(st, mission, agent, st.agents.messages@.len() as int)
}

/// Places as integers.
pub open spec fn ints(v: Seq<usize>) -> Seq<int> {
    Seq::new(v.len(), |i: int| v[i] as int)
}

fn is_visible(st: &AppState, mission: Option<&str>, agent: Option<&str>, i: usize) -> (r: bool)
    ensures
        r == visible(*st, text::opt_str(mission), text::opt_str(agent), i as int),
{
    i < st.agents.messages.len() && message_matches_context(
        st,
        &st.agents.messages[i],
        mission,
        agent,
    )
}

fn parent_of(st: &AppState, mission: Option<&str>, agent: Option<&str>, i: usize) -> (r: Option<usize>)
    requires
        i < st.agents.messages@.len(),
    ensures
        match r {
            Some(p) => parent(*st, text::opt_str(mission), text::opt_str(agent), i as int) == Some(
                p as int,
            ),
            None => parent(*st, text::opt_str(mission), text::opt_str(agent), i as int) is None,
        },
{
    let msg: &AgentMessage = &st.agents.messages[i];
    match msg.prompt_msg_idx {
        Some(p) => if msg.agent_id.is_some() && is_visible(st, mission, agent, p)
            && st.agents.messages[p].agent_id.is_none() {
            Some(p)
        } else {
            None
        },
        None => None,
    }
}

fn push_answers(
    out: &mut Vec<usize>,
    st: &AppState,
    mission: Option<&str>,
    agent: Option<&str>,
    p: usize,
)
    ensures
        ints(final(out)@) == ints(old(out)@) + counting::picked(
            st.agents.messages@.len() as int,
            answers(*st, text::opt_str(mission), text::opt_str(agent), p as int),
        ),
{
    let ghost before: Seq<int> = ints(out@);
    let ghost meets: spec_fn(int) -> bool = answers(
        *st,
        text::opt_str(mission),
        text::opt_str(agent),
        p as int,
    );
    let mut i: usize = 0;
    assert(before + counting::picked(0, meets) =~= before);
    while i < st.agents.messages.len()
        invariant
            i <= st.agents.messages@.len(),
            meets == answers(*st, text::opt_str(mission), text::opt_str(agent), p as int),
            ints(out@) == before + counting::picked(i as int, meets),
        decreases st.agents.messages@.len() - i,
    {
        let ghost so_far: Seq<int> = counting::picked(i as int, meets);
        let ghost held: Seq<usize> = out@;
        let answer: bool = is_visible(st, mission, agent, i) && (match parent_of(
            st,
            mission,
            agent,
            i,
        ) {
            Some(q) => q == p,
            None => false,
        });
        assert(answer == meets(i as int));
        if answer {
            out.push(i);
            assert(ints(out@) =~= ints(held).push(i as int));
            assert(before + so_far.push(i as int) =~= (before + so_far).push(i as int));
        }
        i += 1;
    }
}

/// Which messages are shown, with the answers to a prompt right below it. An answer whose prompt is
/// not shown stays in its place.
pub fn visible_messages_grouped(st: &AppState, mission: Option<&str>, agent: Option<&str>) -> (r: Vec<
    usize,
>)
    ensures
        ints(r@) == grouped(*st, text::opt_str(mission), text::opt_str(agent)),
        forall|k: int| 0 <= k < r@.len() ==> (#[trigger] r@[k]) < st.agents.messages@.len(),
{
    let ghost m: Option<Seq<char>> = text::opt_str(mission);
    let ghost a: Option<Seq<char>> = text::opt_str(agent);
    let mut out: Vec<usize> = Vec::new();
    let mut i: usize = 0;
    assert(ints(out@) =~= grouped_upto(*st, m, a, 0));
    while i < st.agents.messages.len()
        invariant
            i <= st.agents.messages@.len(),
            m == text::opt_str(mission),
            a == text::opt_str(agent),
            ints(out@) == grouped_upto(*st, m, a, i as int),
        decreases st.agents.messages@.len() - i,
    {
        if is_visible(st, mission, agent, i) && parent_of(st, mission, agent, i).is_none() {
            let ghost held: Seq<usize> = out@;
            out.push(i);
            assert(ints(out@) =~= ints(held).push(i as int));
            push_answers(&mut out, st, mission, agent, i);
            proof {
                if st.agents.messages@[i as int].agent_id is Some {
                    no_answers(*st, m, a, i as int, st.agents.messages@.len() as int);
                }
            }
        }
        i += 1;
    }
    assert forall|k: int| 0 <= k < out@.len() implies (#[trigger] out@[k])
        < st.agents.messages@.len() by {
        assert(ints(out@)[k] == out@[k]);
        shown_are_visible(*st, m, a, i as int, k);
    }
    out
}

proof fn no_answers(
    st: AppState,
    mission: Option<Seq<char>>,
    agent: Option<Seq<char>>,
    p: int,
    n: int,
)
    requires
        0 <= p < st.agents.messages@.len(),
        st.agents.messages@[p].agent_id is Some,
    ensures
        counting::picked(n, answers(st, mission, agent, p)) == Seq::<int>::empty(),
    decreases n,
{
    if n > 0 {
        no_answers(st, mission, agent, p, n - 1);
    }
}

/// Where the group stands that the message at `i` is shown in.
pub open spec fn home(
    st: AppState,
    mission: Option<Seq<char>>,
    agent: Option<Seq<char>>,
    i: int,
) -> int {
    match parent(st, mission, agent, i) {
        Some(p) => p,
        None => i,
    }
}

proof fn shown_are_visible(
    st: AppState,
    mission: Option<Seq<char>>,
    agent: Option<Seq<char>>,
    n: int,
    k: int,
)
    requires
        0 <= k < grouped_upto(st, mission, agent, n).len(),
    ensures
        visible(st, mission, agent, grouped_upto(st, mission, agent, n)[k]),
        0 <= home(st, mission, agent, grouped_upto(st, mission, agent, n)[k]) < n,
    decreases n,
{
    let before: Seq<int> = grouped_upto(st, mission, agent, n - 1);
    if k < before.len() {
        shown_are_visible(st, mission, agent, n - 1, k);
    } else if visible(st, mission, agent, n - 1) && parent(st, mission, agent, n - 1) is None {
        let total: int = st.agents.messages@.len() as int;
        let meets: spec_fn(int) -> bool = answers(st, mission, agent, n - 1);
        counting::picked_are_in_order(total, meets);
        if k > before.len() {
            let j: int = counting::picked(total, meets)[k - before.len() - 1];
            assert(meets(j));
        }
    }
}

/// Every message that is shown has its place.
pub proof fn visible_are_shown(
    st: AppState,
    mission: Option<Seq<char>>,
    agent: Option<Seq<char>>,
    i: int,
) -> (k: int)
    requires
        visible(st, mission, agent, i),
    ensures
        0 <= k < grouped(st, mission, agent).len(),
        grouped(st, mission, agent)[k] == i,
{
    let total: int = st.agents.messages@.len() as int;
    match parent(st, mission, agent, i) {
        None => {
            let before: Seq<int> = grouped_upto(st, mission, agent, i);
            let at: int = before.len() as int;
            assert(grouped_upto(st, mission, agent, i + 1)[at] == i);
            groups_stay(st, mission, agent, i + 1, total, at);
            at
        },
        Some(p) => {
            let meets: spec_fn(int) -> bool = answers(st, mission, agent, p);
            assert(meets(i));
            counting::picked_holds(total, meets, i);
            let found: Seq<int> = counting::picked(total, meets);
            let j: int = choose|j: int| 0 <= j < found.len() && found[j] == i;
            let before: Seq<int> = grouped_upto(st, mission, agent, p);
            let at: int = before.len() + 1 + j;
            assert(grouped_upto(st, mission, agent, p + 1) == before.push(p) + found);
            assert(grouped_upto(st, mission, agent, p + 1)[at] == i);
            groups_stay(st, mission, agent, p + 1, total, at);
            at
        },
    }
}

proof fn groups_stay(
    st: AppState,
    mission: Option<Seq<char>>,
    agent: Option<Seq<char>>,
    n: int,
    m: int,
    k: int,
)
    requires
        0 <= n <= m,
        0 <= k < grouped_upto(st, mission, agent, n).len(),
    ensures
        k < grouped_upto(st, mission, agent, m).len(),
        grouped_upto(st, mission, agent, m)[k] == grouped_upto(st, mission, agent, n)[k],
    decreases m - n,
{
    if n < m {
        groups_stay(st, mission, agent, n, m - 1, k);
    }
}

proof fn no_message_twice_upto(
    st: AppState,
    mission: Option<Seq<char>>,
    agent: Option<Seq<char>>,
    n: int,
    j: int,
    k: int,
)
    requires
        0 <= j < k < grouped_upto(st, mission, agent, n).len(),
    ensures
        grouped_upto(st, mission, agent, n)[j] != grouped_upto(st, mission, agent, n)[k],
    decreases n,
{
    let before: Seq<int> = grouped_upto(st, mission, agent, n - 1);
    let all: Seq<int> = grouped_upto(st, mission, agent, n);
    if k < before.len() {
        no_message_twice_upto(st, mission, agent, n - 1, j, k);
    } else {
        let total: int = st.agents.messages@.len() as int;
        let meets: spec_fn(int) -> bool = answers(st, mission, agent, n - 1);
        let found: Seq<int> = counting::picked(total, meets);
        counting::picked_are_in_order(total, meets);
        if j < before.len() {
            shown_are_visible(st, mission, agent, n - 1, j);
            if k > before.len() {
                assert(meets(found[k - before.len() - 1]));
            }
        } else if j == before.len() {
            assert(meets(found[k - before.len() - 1]));
        } else {
            assert(found[j - before.len() - 1] < found[k - before.len() - 1]);
        }
    }
}

/// No message is shown twice, and none that is not to be shown.
pub proof fn messages_are_shown_once(
    st: AppState,
    mission: Option<Seq<char>>,
    agent: Option<Seq<char>>,
    k: int,
)
    requires
        0 <= k < grouped(st, mission, agent).len(),
    ensures
        visible(st, mission, agent, grouped(st, mission, agent)[k]),
        forall|j: int|
            0 <= j < k ==> #[trigger] grouped(st, mission, agent)[j] != grouped(
                st,
                mission,
                agent,
            )[k],
{
    let n: int = st.agents.messages@.len() as int;
    shown_are_visible(st, mission, agent, n, k);
    assert forall|j: int| 0 <= j < k implies #[trigger] grouped(st, mission, agent)[j] != grouped(
        st,
        mission,
        agent,
    )[k] by {
        no_message_twice_upto(st, mission, agent, n, j, k);
    }
}

/// Whether the message at `a` comes before the one at `b`: groups stand in the order of the
/// messages that lead them, and in a group the prompt is followed by its answers, in their order.
pub open spec fn comes_before(
    st: AppState,
    mission: Option<Seq<char>>,
    agent: Option<Seq<char>>,
    a: int,
    b: int,
) -> bool {
    let g: int = home(st, mission, agent, a);
    let h: int = home(st, mission, agent, b);
    g < h || (g == h && b != h && (a == g || a < b))
}

proof fn groups_are_ordered_upto(
    st: AppState,
    mission: Option<Seq<char>>,
    agent: Option<Seq<char>>,
    n: int,
    j: int,
    k: int,
)
    requires
        0 <= j < k < grouped_upto(st, mission, agent, n).len(),
    ensures
        comes_before(
            st,
            mission,
            agent,
            grouped_upto(st, mission, agent, n)[j],
            grouped_upto(st, mission, agent, n)[k],
        ),
    decreases n,
{
    let before: Seq<int> = grouped_upto(st, mission, agent, n - 1);
    if k < before.len() {
        groups_are_ordered_upto(st, mission, agent, n - 1, j, k);
    } else {
        let total: int = st.agents.messages@.len() as int;
        let meets: spec_fn(int) -> bool = answers(st, mission, agent, n - 1);
        let found: Seq<int> = counting::picked(total, meets);
        counting::picked_are_in_order(total, meets);
        if k > before.len() {
            assert(meets(found[k - before.len() - 1]));
        }
        if j < before.len() {
            shown_are_visible(st, mission, agent, n - 1, j);
        } else if j > before.len() {
            assert(meets(found[j - before.len() - 1]));
            assert(found[j - before.len() - 1] < found[k - before.len() - 1]);
        }
    }
}

/// A prompt is followed at once by its answers, in their order; everything else stands in the order
/// in which it was said.
pub proof fn answers_follow_their_prompt(
    st: AppState,
    mission: Option<Seq<char>>,
    agent: Option<Seq<char>>,
    j: int,
    k: int,
)
    requires
        0 <= j < k < grouped(st, mission, agent).len(),
    ensures
        comes_before(
            st,
            mission,
            agent,
            grouped(st, mission, agent)[j],
            grouped(st, mission, agent)[k],
        ),
{
    groups_are_ordered_upto(st, mission, agent, st.agents.messages@.len() as int, j, k);
}

/// The badge of an agent.
pub open spec fn badge(st: AppState, id: Seq<char>) -> Seq<char>
    decreases id.len(),
{
    let full: Seq<char> = text::trimmed(id);
    let short: Seq<char> = fit::truncated(full, 10);
    match clone_labels::chat_label(full) {
        Some(label) => fit::truncated(label, 24),
        None => match st.agents.chat_clones.base(full) {
            Some(base) if base.len() < id.len() => badge(st, base),
            _ => match turns::lane(st, id) {
                Some(agent) => {
                    let role: Seq<char> = text::trimmed(agent.role@);
                    if role.len() == 0 {
                        short
                    } else if text::same_letters(role, full) {
                        fit::truncated(role, 24)
                    } else {
                        fit::truncated(fit::truncated(role, 12) + "/"@ + short, 24)
                    }
                },
                None => short,
            },
        },
    }
}

proof fn trimmed_is_not_longer(s: Seq<char>)
    ensures
        text::trimmed(s).len() <= s.len(),
{
    text::trimmed_start_not_longer(s);
    trimmed_end_is_not_longer(text::trimmed_start(s));
}

proof fn trimmed_end_is_not_longer(s: Seq<char>)
    ensures
        text::trimmed_end(s).len() <= s.len(),
    decreases s.len(),
{
    if s.len() > 0 && text::white(s[s.len() - 1]) {
        trimmed_end_is_not_longer(s.subrange(0, s.len() - 1));
    }
}

pub fn agent_identity_badge(st: &AppState, agent_id: &str) -> (r: String)
    ensures
        r@ == badge(*st, agent_id@),
    decreases agent_id@.len(),
{
    let bare: String = text::trim(agent_id);
    let full: &str = bare.as_str();
    if let Some(label) = clone_labels::compact_swarm_clone_label(full) {
        return fit::truncate_label(label.as_str(), 24);
    }
    proof {
        trimmed_is_not_longer(agent_id@);
    }
    if let Some(base) = st.agents.chat_clones.base_of(full) {
        return agent_identity_badge(st, base);
    }
    let short: String = fit::truncate_label(full, 10);
    let agent: &AgentLane = match turns::find_lane(st, agent_id) {
        Some(a) => a,
        None => {
            return short;
        },
    };
    let role_text: String = text::trim(agent.role.as_str());
    let role: &str = role_text.as_str();
    if text::length(role) == 0 {
        return short;
    }
    if text::eq_ignore_case(role, full) {
        return fit::truncate_label(role, 24);
    }
    let short_role: String = fit::truncate_label(role, 12);
    let both: String = text::cat3(short_role.as_str(), "/", short.as_str());
    fit::truncate_label(both.as_str(), 24)
}

/// The name of an agent in the table of those at work.
pub open spec fn table_name(st: AppState, agent: AgentLane) -> Seq<char> {
    let full: Seq<char> = text::trimmed(agent.id@);
    let role: Seq<char> = text::trimmed(agent.role@);
    match clone_labels::source_label(full) {
        Some(label) => label,
        None => if role.len() == 0 {
            full
        } else if st.agents.chat_clones.base(full) is Some || text::same_letters(role, full) {
            role
        } else {
            role + "/"@ + full
        },
    }
}

pub fn agent_roster_label(st: &AppState, agent: &AgentLane) -> (r: String)
    ensures
        r@ == table_name(*st, *agent),
{
    let full: String = text::trim(agent.id.as_str());
    if let Some(label) = clone_labels::swarm_clone_source_label(full.as_str()) {
        return label;
    }
    let role: String = text::trim(agent.role.as_str());
    if text::length(role.as_str()) == 0 {
        return full;
    }
    if st.agents.chat_clones.base_of(full.as_str()).is_some() {
        return role;
    }
    if text::eq_ignore_case(role.as_str(), full.as_str()) {
        return role;
    }
    text::cat3(role.as_str(), "/", full.as_str())
}

/// The name of an agent in the table of those at work, by its id.
pub open spec fn named(st: AppState, id: Seq<char>) -> Seq<char> {
    match turns::lane(st, id) {
        Some(agent) => table_name(st, agent),
        None => id,
    }
}

pub fn name_of(st: &AppState, id: &str) -> (r: String)
    ensures
        r@ == named(*st, id@),
{
    match turns::find_lane(st, id) {
        Some(agent) => agent_roster_label(st, agent),
        None => text::copy(id),
    }
}

/// The lines of a message.
pub open spec fn message_lines(s: Seq<char>) -> Seq<Seq<char>> {
    if s.len() == 0 {
        seq![Seq::empty()]
    } else {
        text::split_at_char(s, '\n')
    }
}

/// How far a prompt is indented.
pub open spec fn bubble_indent(width: int) -> int {
    text::min_int(2, text::monus(width, 1))
}

/// How wide the text of a prompt is.
pub open spec fn bubble_width(width: int) -> int {
    text::max_int(text::monus(width, bubble_indent(width) + 1), 1)
}

/// Lines of a prompt, indented and padded to the width.
pub open spec fn bubble_lines(lines: Seq<Seq<char>>, width: int) -> Seq<Seq<char>> {
    Seq::new(
        lines.len(),
        |i: int|
            fit::padded(text::fill(' ', bubble_indent(width) as nat) + lines[i], width),
    )
}

/// The first `n` lines of a prompt, wrapped.
pub open spec fn bubble_text(lines: Seq<Seq<char>>, width: int, n: int) -> Seq<Seq<char>>
    decreases n,
{
    if n <= 0 {
        Seq::empty()
    } else {
        bubble_text(lines, width, n - 1) + bubble_lines(
            wrap::visual_lines(lines[n - 1], bubble_width(width)),
            width,
        )
    }
}

/// A prompt of the user as a block of lines of the full width.
pub open spec fn bubble(s: Seq<char>, given: int) -> Seq<Seq<char>> {
    let width: int = text::max_int(given, 1);
    let edge: Seq<Seq<char>> = seq![
        fit::padded(text::fill(' ', bubble_indent(width) as nat), width),
    ];
    let lines: Seq<Seq<char>> = message_lines(s);
    edge + bubble_lines(wrap::visual_lines("You"@, bubble_width(width)), width) + bubble_text(
        lines,
        width,
        lines.len() as int,
    ) + edge
}

fn push_bubble_lines(out: &mut Vec<String>, lines: &Vec<String>, indent: usize, width: usize)
    requires
        width >= 1,
        indent == bubble_indent(width as int),
    ensures
        text::texts(final(out)@) == text::texts(old(out)@) + bubble_lines(
            text::texts(lines@),
            width as int,
        ),
{
    broadcast use text::group_texts;

    let ghost before: Seq<Seq<char>> = text::texts(out@);
    let ghost all: Seq<Seq<char>> = bubble_lines(text::texts(lines@), width as int);
    let space: String = text::filled(' ', indent);
    let mut i: usize = 0;
    assert(before + all.take(0) =~= before);
    while i < lines.len()
        invariant
            i <= lines@.len(),
            all == bubble_lines(text::texts(lines@), width as int),
            indent == bubble_indent(width as int),
            space@ == text::fill(' ', indent as nat),
            text::texts(out@) == before + all.take(i as int),
        decreases lines@.len() - i,
    {
        broadcast use text::group_texts;

        let line: String = text::cat2(space.as_str(), lines[i].as_str());
        let padded: String = fit::pad_to_width(line.as_str(), width);
        let ghost shown: Seq<char> = padded@;
        assert(text::texts(lines@)[i as int] == lines@[i as int]@);
        assert(all[i as int] == shown);
        out.push(padded);
        i += 1;
        assert(before + all.take(i as int) =~= (before + all.take(i - 1)).push(shown));
    }
    assert(all.take(i as int) =~= all);
}

pub fn format_user_bubble_rows(s: &str, given: usize) -> (r: Vec<String>)
    ensures
        text::texts(r@) == bubble(s@, given as int),
{
    broadcast use text::group_line_lists;

    let width: usize = text::max_of(given, 1);
    let indent: usize = text::min_of(2, text::minus(width, 1));
    let inner: usize = text::max_of(text::minus(width, indent + 1), 1);
    assert(inner == bubble_width(width as int));
    let mut out: Vec<String> = Vec::new();
    let space: String = text::filled(' ', indent);
    out.push(fit::pad_to_width(space.as_str(), width));
    let ghost edge: Seq<Seq<char>> = seq![
        fit::padded(text::fill(' ', bubble_indent(width as int) as nat), width as int),
    ];
    assert(text::texts(out@) =~= edge);
    let you: Vec<String> = wrap::wrap_visual_line("You", inner);
    push_bubble_lines(&mut out, &you, indent, width);
    let lines: Vec<String> = if text::length(s) == 0 {
        let none: Vec<String> = vec![String::new()];
        assert(none@[0]@ =~= Seq::<char>::empty());
        assert(text::texts(none@) =~= seq![Seq::<char>::empty()]);
        none
    } else {
        text::split_char(s, '\n')
    };
    let ghost before: Seq<Seq<char>> = text::texts(out@);
    let ghost all: Seq<Seq<char>> = text::texts(lines@);
    let mut i: usize = 0;
    while i < lines.len()
        invariant
            i <= lines@.len(),
            width >= 1,
            indent == bubble_indent(width as int),
            inner == bubble_width(width as int),
            all == text::texts(lines@),
            text::texts(out@) == before + bubble_text(all, width as int, i as int),
        decreases lines@.len() - i,
    {
        broadcast use text::group_line_lists;

        assert(all[i as int] == lines@[i as int]@);
        let parts: Vec<String> = wrap::wrap_visual_line(lines[i].as_str(), inner);
        push_bubble_lines(&mut out, &parts, indent, width);
        i += 1;
    }
    let ghost full: Seq<Seq<char>> = text::texts(out@);
    out.push(fit::pad_to_width(space.as_str(), width));
    assert(text::texts(out@) =~= full + edge);
    out
}

/// Whether a message is said elsewhere and has no rows of its own.
pub open spec fn hidden(msg: AgentMessage) -> bool {
    text::opt_text(msg.agent_id) == Some("swarm"@) && (text::starts(msg.text@, "Swarm "@)
        || msg.broadcast)
}

/// Lines padded to the width.
pub open spec fn padded_lines(lines: Seq<Seq<char>>, width: int) -> Seq<Seq<char>> {
    Seq::new(lines.len(), |i: int| fit::padded_right(lines[i], width))
}

/// The rows of the message at `idx`.
pub open spec fn message_rows(
    st: AppState,
    swarm: Option<&SwarmRuntime>,
    idx: int,
    given: int,
) -> Seq<Row> {
    let width: int = text::max_int(given, 1);
    let msg: AgentMessage = st.agents.messages@[idx];
    match msg.agent_id {
        None => rows::rows_of(bubble(msg.text@, width), ThreadRowKind::User),
        Some(id) => if hidden(msg) {
            Seq::empty()
        } else if text::opt_text(msg.kind) == Some("genome-retry"@) {
            rows::rows_of(
                padded_lines(text::lines_of(msg.text@), width),
                ThreadRowKind::StatusSubRow,
            )
        } else {
            let head: Seq<char> = "↳ "@ + "["@ + badge(st, id@) + "]"@ + (if msg.broadcast {
                " @all"@
            } else {
                ""@
            }) + " done"@;
            let first: Row = if popup::popup_of_message(st, swarm, width, idx as usize) is Some {
                rows::row(
                    fit::padded_right(head + " (see ARTIFACTS)"@, width),
                    ThreadRowKind::ArtifactLink,
                )
            } else {
                rows::row(head, ThreadRowKind::Agent)
            };
            seq![first, rows::row(Seq::empty(), ThreadRowKind::Agent)]
        },
    }
}

fn rows_from(lines: Vec<String>, kind: ThreadRowKind) -> (r: Vec<ThreadRow>)
    ensures
        rows::rows(r@) == rows::rows_of(text::texts(lines@), kind),
{
    broadcast use rows::group_rows;

    let ghost all: Seq<Row> = rows::rows_of(text::texts(lines@), kind);
    let mut out: Vec<ThreadRow> = Vec::new();
    let mut i: usize = 0;
    assert(rows::rows(out@) =~= all.take(0));
    while i < lines.len()
        invariant
            i <= lines@.len(),
            all == rows::rows_of(text::texts(lines@), kind),
            rows::rows(out@) == all.take(i as int),
        decreases lines@.len() - i,
    {
        assert(text::texts(lines@)[i as int] == lines@[i as int]@);
        rows::push_row(&mut out, lines[i].clone(), kind);
        i += 1;
        assert(all.take(i as int) =~= all.take(i - 1) + seq![all[i - 1]]);
    }
    assert(all.take(i as int) =~= all);
    out
}

fn pad_lines(lines: &Vec<String>, width: usize) -> (r: Vec<String>)
    ensures
        text::texts(r@) == padded_lines(text::texts(lines@), width as int),
{
    broadcast use text::group_texts;

    let ghost all: Seq<Seq<char>> = padded_lines(text::texts(lines@), width as int);
    let mut out: Vec<String> = Vec::new();
    let mut i: usize = 0;
    assert(text::texts(out@) =~= all.take(0));
    while i < lines.len()
        invariant
            i <= lines@.len(),
            all == padded_lines(text::texts(lines@), width as int),
            text::texts(out@) == all.take(i as int),
        decreases lines@.len() - i,
    {
        broadcast use text::group_texts;

        assert(text::texts(lines@)[i as int] == lines@[i as int]@);
        out.push(fit::pad_line_right(lines[i].as_str(), width));
        i += 1;
        assert(all.take(i as int) =~= all.take(i - 1).push(all[i - 1]));
    }
    assert(all.take(i as int) =~= all);
    out
}

pub fn format_message_rows(
    st: &AppState,
    swarm: Option<&SwarmRuntime>,
    idx: usize,
    given: usize,
) -> (r: Vec<ThreadRow>)
    requires
        idx < st.agents.messages@.len(),
    ensures
        rows::rows(r@) == message_rows(*st, swarm, idx as int, given as int),
{
    let width: usize = text::max_of(given, 1);
    let msg: &AgentMessage = &st.agents.messages[idx];
    let id: &String = match &msg.agent_id {
        None => {
            return rows_from(
                format_user_bubble_rows(msg.text.as_str(), width),
                ThreadRowKind::User,
            );
        },
        Some(id) => id,
    };
    let mut out: Vec<ThreadRow> = Vec::new();
    if text::str_eq(id.as_str(), "swarm") && (text::starts_with(msg.text.as_str(), "Swarm ")
        || msg.broadcast) {
        assert(rows::rows(out@) =~= Seq::<Row>::empty());
        return out;
    }
    if text::opt_str_eq(&msg.kind, "genome-retry") {
        let lines: Vec<String> = text::lines(msg.text.as_str());
        return rows_from(pad_lines(&lines, width), ThreadRowKind::StatusSubRow);
    }
    let label: String = agent_identity_badge(st, id.as_str());
    let head: String = text::cat6(
        "↳ ",
        "[",
        label.as_str(),
        "]",
        if msg.broadcast {
            " @all"
        } else {
            ""
        },
        " done",
    );
    let linked: bool = popup::artifacts_popup_ref_for_message(st, swarm, width, idx).is_some();
    if linked {
        let full: String = text::cat2(head.as_str(), " (see ARTIFACTS)");
        out.push(
            ThreadRow {
                text: fit::pad_line_right(full.as_str(), width),
                kind: ThreadRowKind::ArtifactLink,
            },
        );
    } else {
        out.push(ThreadRow { text: head, kind: ThreadRowKind::Agent });
    }
    let none: String = String::new();
    assert(none@ =~= Seq::<char>::empty());
    out.push(ThreadRow { text: none, kind: ThreadRowKind::Agent });
    assert(rows::rows(out@) =~= message_rows(*st, swarm, idx as int, given as int));
    out
}

/// At most one row of a message links to an artifact, and it is the first one.
pub proof fn artifact_link_comes_first(
    st: AppState,
    swarm: Option<&SwarmRuntime>,
    idx: int,
    given: int,
    k: int,
)
    requires
        0 <= k < message_rows(st, swarm, idx, given).len(),
        message_rows(st, swarm, idx, given)[k].kind is ArtifactLink,
    ensures
        k == 0,
        st.agents.messages@[idx].agent_id is Some,
{
}

} // verus!
