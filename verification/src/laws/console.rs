//! What the console says of agents at work.

use vstd::prelude::*;

use crate::agent_console_view::footer;
use crate::agent_console_view::footer::Footer;
use crate::agent_console_view::stages;
use crate::agent_console_view::words;
use crate::laws::labels;
use crate::laws::texts;
use crate::state::AgentMessage;
use crate::state::AppState;
use crate::text;

verus! {

/// Up to a thousand, tokens are told one by one; beyond that in thousands and tenths of them, and
/// beyond a million in millions and tenths of them. Tenths are left out where they are none or the
/// number is large.
pub proof fn tokens_are_told_in_short(t: nat, whole: nat, tenths: nat)
    requires
        tenths < 10,
    ensures
        t < 1_000 ==> stages::short_count(t) == text::decimal(t),
        1 <= whole < 1_000 && 1_000 * whole + 100 * tenths <= t < 1_000 * whole + 100 * tenths + 100
            ==> stages::short_count(t) == (if whole < 100 && tenths > 0 {
            text::decimal(whole) + "."@ + text::decimal(tenths) + "K"@
        } else {
            text::decimal(whole) + "K"@
        }),
        1 <= whole && 1_000_000 * whole + 100_000 * tenths <= t < 1_000_000 * whole + 100_000
            * tenths + 100_000 ==> stages::short_count(t) == (if whole < 10 && tenths > 0 {
            text::decimal(whole) + "."@ + text::decimal(tenths) + "M"@
        } else {
            text::decimal(whole) + "M"@
        }),
{
}

/// A time is told in hours and minutes, in minutes and seconds, or in seconds alone.
pub proof fn times_are_told_in_two_units(h: nat, m: nat, s: nat)
    requires
        m < 60,
        s < 60,
    ensures
        stages::span(3600 * h + 60 * m + s) == (if h > 0 {
            text::decimal(h) + "h"@ + text::two_digits(m) + "m"@
        } else if m > 0 {
            text::decimal(m) + "m"@ + text::two_digits(s) + "s"@
        } else {
            text::decimal(s) + "s"@
        }),
{
    let t: nat = 3600 * h + 60 * m + s;
    assert(t / 3600 == h);
    assert(t / 60 == 60 * h + m);
    assert((60 * h + m) % 60 == m);
    assert(t % 60 == s);
}

/// What is told of the tokens of an agent comes from the tables of its own backend, and outside of
/// missions from its own tables there.
pub proof fn backends_keep_their_own_books(
    st: AppState,
    other: AppState,
    claude: bool,
    id: Seq<char>,
    mission: Option<Seq<char>>,
)
    requires
        claude ==> st.agents.claude_mission_context_remaining_pct
            == other.agents.claude_mission_context_remaining_pct
            && st.agents.claude_context_remaining_pct == other.agents.claude_context_remaining_pct
            && st.agents.claude_mission_used_tokens == other.agents.claude_mission_used_tokens
            && st.agents.claude_used_tokens == other.agents.claude_used_tokens,
        !claude ==> st.agents.codex_mission_context_remaining_pct
            == other.agents.codex_mission_context_remaining_pct
            && st.agents.codex_context_remaining_pct == other.agents.codex_context_remaining_pct
            && st.agents.codex_mission_used_tokens == other.agents.codex_mission_used_tokens
            && st.agents.codex_used_tokens == other.agents.codex_used_tokens,
    ensures
        stages::left_pct(st, claude, id, mission) == stages::left_pct(other, claude, id, mission),
        stages::used_tokens(st, claude, id, mission) == stages::used_tokens(
            other,
            claude,
            id,
            mission,
        ),
{
}

/// A stage with a detail in brackets is told as both.
pub proof fn stages_have_a_name_and_a_detail(name: Seq<char>, detail: Seq<char>)
    requires
        labels::lacks(name, '('),
    ensures
        stages::stage_parts(name + seq!['('] + (detail + seq![')'])) == Some((name, detail)),
{
    let s: Seq<char> = name + seq!['('] + (detail + seq![')']);
    texts::characters_are_found_first(name, '(', detail + seq![')']);
    assert(s.last() == ')');
    assert(s.subrange(0, name.len() as int) =~= name);
    assert(s.subrange(name.len() + 1int, s.len() - 1) =~= detail);
}

proof fn worded_is_spaced(s: Seq<char>, n: int)
    requires
        n <= s.len(),
    ensures
        ({
            let w: Seq<char> = stages::worded_upto(s, n);
            &&& w.len() > 0 ==> w[0] != ' '
            &&& forall|i: int|
                0 <= i < w.len() ==> #[trigger] w[i] != '_' && w[i] != '.' && w[i] != '/' && w[i]
                    != '-'
            &&& forall|i: int, j: int|
                0 <= i < w.len() && j == i + 1 && j < w.len() ==> !(#[trigger] w[i] == ' '
                    && #[trigger] w[j] == ' ')
        }),
    decreases n,
{
    if n > 0 {
        worded_is_spaced(s, n - 1);
    }
}

/// A name made readable has no underscores, dots, slashes or dashes left, and no two spaces beside
/// each other.
pub proof fn readable_names_are_words(s: Seq<char>, i: int)
    requires
        0 <= i < stages::humanized(s).len(),
    ensures
        stages::humanized(s)[i] != '_',
        stages::humanized(s)[i] != '.',
        stages::humanized(s)[i] != '/',
        stages::humanized(s)[i] != '-',
        i + 1 < stages::humanized(s).len() ==> !(stages::humanized(s)[i] == ' ' && stages::humanized(
            s,
        )[i + 1] == ' '),
{
    worded_is_spaced(s, s.len() as int);
    let w: Seq<char> = stages::worded_upto(s, s.len() as int);
    let ends: (int, int) = texts::trimming_takes_the_white_ends(w);
    assert(stages::humanized(s)[i] == w[ends.0 + i]);
    if i + 1 < stages::humanized(s).len() {
        assert(stages::humanized(s)[i + 1] == w[ends.0 + i + 1]);
    }
}

proof fn letters_are_kept(s: Seq<char>, n: int)
    requires
        0 <= n <= s.len(),
        forall|i: int|
            0 <= i < n ==> #[trigger] s[i] != '_' && s[i] != '.' && s[i] != '/' && s[i] != '-'
                && s[i] != ' ',
    ensures
        stages::worded_upto(s, n) == s.take(n),
    decreases n,
{
    if n > 0 {
        letters_are_kept(s, n - 1);
        assert(s.take(n) =~= s.take(n - 1).push(s[n - 1]));
    } else {
        assert(s.take(n) =~= Seq::<char>::empty());
    }
}

/// A single word is readable as it is.
pub proof fn single_words_stay(s: Seq<char>)
    requires
        labels::bare(s),
        labels::lacks(s, '_'),
        labels::lacks(s, '.'),
        labels::lacks(s, '/'),
        labels::lacks(s, '-'),
        labels::lacks(s, ' '),
    ensures
        stages::humanized(s) == s,
{
    letters_are_kept(s, s.len() as int);
    assert(s.take(s.len() as int) =~= s);
    texts::nothing_else_is_trimmed(s);
}

/// An item that starts or ends is told as such, by its own name.
pub proof fn items_start_and_finish(detail: Seq<char>)
    requires
        labels::bare(detail),
        labels::lacks(detail, '_'),
        labels::lacks(detail, '.'),
        labels::lacks(detail, '/'),
        labels::lacks(detail, '-'),
        labels::lacks(detail, ' '),
    ensures
        stages::stage_words("item_started"@ + seq!['('] + (detail + seq![')'])) == "Starting "@
            + detail,
        stages::stage_words("item_completed"@ + seq!['('] + (detail + seq![')'])) == "Finished "@
            + detail,
        stages::stage_words("tool_use"@ + seq!['('] + (detail + seq![')'])) == "Tool: "@ + detail,
        stages::stage_words("tool_result"@ + seq!['('] + (detail + seq![')'])) == "Result: "@
            + detail,
{
    reveal_strlit("item_started");
    reveal_strlit("item.started");
    reveal_strlit("item_completed");
    reveal_strlit("item.completed");
    reveal_strlit("tool_use");
    reveal_strlit("tool_result");
    reveal_strlit("tools/call");
    reveal_strlit("assistant");
    single_words_stay(detail);
    stages_have_a_name_and_a_detail("item_started"@, detail);
    stages_have_a_name_and_a_detail("item_completed"@, detail);
    stages_have_a_name_and_a_detail("tool_use"@, detail);
    stages_have_a_name_and_a_detail("tool_result"@, detail);
    assert("item_started"@[5] == 's');
    assert("item_completed"@[5] == 'c');
    assert("item.started"@[4] == '.');
    assert("item.completed"@[4] == '.');
    assert("tool_use"@[0] == 't');
    assert("tool_result"@.len() == 11);
    assert("tool_use"@.len() == 8);
    assert("tools/call"@.len() == 10);
    assert("assistant"@[0] == 'a');
}

/// A text without a digit is no number, and a number in digits is one.
pub proof fn numbers_have_digits(s: Seq<char>, n: nat)
    ensures
        (forall|i: int| 0 <= i < s.len() ==> !('0' <= #[trigger] s[i] <= '9')) ==> !words::numberish(
            s,
        ),
        words::numberish(text::decimal(n)),
{
    if forall|i: int| 0 <= i < s.len() ==> !('0' <= #[trigger] s[i] <= '9') {
        let ends: (int, int) = texts::trimming_takes_the_white_ends(s);
        part_lacks_digits(s.subrange(ends.0, ends.1));
    }
    let d: Seq<char> = text::decimal(n);
    texts::numbers_are_spelled_out(n);
    assert(!text::white(d[0]) && !text::white(d[d.len() - 1]));
    texts::nothing_else_is_trimmed(d);
    assert(words::unclosed(d) == d);
    assert(text::digit(d[0]));
    assert forall|i: int| 0 <= i < d.len() implies text::digit(#[trigger] d[i]) by {}
}

proof fn part_lacks_digits(t: Seq<char>)
    requires
        forall|i: int| 0 <= i < t.len() ==> !('0' <= #[trigger] t[i] <= '9'),
    ensures
        forall|i: int|
            0 <= i < words::unclosed(t).len() ==> !('0' <= #[trigger] words::unclosed(t)[i] <= '9'),
    decreases t.len(),
{
    if t.len() > 0 && words::closing(t[0]) {
        part_lacks_digits(t.subrange(1, t.len() as int));
        assert(words::unclosed(t) == words::unclosed(t.subrange(1, t.len() as int)));
    } else if t.len() > 0 && words::closing(t.last()) {
        part_lacks_digits(t.subrange(0, t.len() - 1));
        assert(words::unclosed(t) == words::unclosed(t.subrange(0, t.len() - 1)));
    } else {
        assert(words::unclosed(t) == t);
    }
}

/// Whether the swarm itself said a message in a mission.
pub open spec fn said_by_swarm(m: AgentMessage, mission: Seq<char>) -> bool {
    m.mission_id is Some && m.mission_id->0@ == mission && m.agent_id is Some && m.agent_id->0@
        == "swarm"@
}

proof fn others_are_passed_over(
    all: Seq<AgentMessage>,
    m: AgentMessage,
    mission: Seq<char>,
    n: int,
)
    requires
        0 <= n <= all.len(),
        !said_by_swarm(m, mission),
    ensures
        footer::collected(all.push(m), mission, n) == footer::collected(all, mission, n),
    decreases all.len() - n,
{
    if n < all.len() {
        others_are_passed_over(all, m, mission, n + 1);
        assert(all.push(m)[n] == all[n]);
    } else {
        reveal_with_fuel(footer::collected, 2);
    }
}

/// What anybody but the swarm says, or the swarm says of another mission, changes nothing of what
/// the footer tells of a mission.
pub proof fn the_footer_listens_to_the_swarm_alone(
    all: Seq<AgentMessage>,
    m: AgentMessage,
    mission: Seq<char>,
)
    requires
        !said_by_swarm(m, mission),
    ensures
        footer::collected(all.push(m), mission, 0) == footer::collected(all, mission, 0),
{
    others_are_passed_over(all, m, mission, 0);
}

proof fn later_words_stay(all: Seq<AgentMessage>, m: AgentMessage, mission: Seq<char>, n: int)
    requires
        0 <= n <= all.len(),
        said_by_swarm(m, mission),
    ensures
        ({
            let last: Footer = footer::with_message(footer::no_footer(), m.text@);
            let told: Footer = footer::collected(all.push(m), mission, n);
            &&& last.template is Some ==> told.template == last.template
            &&& last.mission is Some ==> told.mission == last.mission
            &&& last.integrator is Some ==> told.integrator == last.integrator
            &&& last.verifier is Some ==> told.verifier == last.verifier
            &&& last.gates is Some ==> told.gates == last.gates
            &&& last.status is Some ==> told.status == last.status
            &&& last.notes.len() > 0 ==> told.notes.len() > 0 && told.notes[0] == last.notes[0]
        }),
    decreases all.len() - n,
{
    if n < all.len() {
        later_words_stay(all, m, mission, n + 1);
        assert(all.push(m)[n] == all[n]);
    } else {
        reveal_with_fuel(footer::collected, 2);
        assert(all.push(m)[n] == m);
    }
}

/// What the swarm said last of a mission is what the footer tells: an earlier message never takes
/// its place.
pub proof fn the_last_word_counts(all: Seq<AgentMessage>, m: AgentMessage, mission: Seq<char>)
    requires
        said_by_swarm(m, mission),
    ensures
        ({
            let last: Footer = footer::with_message(footer::no_footer(), m.text@);
            let told: Footer = footer::collected(all.push(m), mission, 0);
            &&& last.template is Some ==> told.template == last.template
            &&& last.mission is Some ==> told.mission == last.mission
            &&& last.integrator is Some ==> told.integrator == last.integrator
            &&& last.verifier is Some ==> told.verifier == last.verifier
            &&& last.gates is Some ==> told.gates == last.gates
            &&& last.status is Some ==> told.status == last.status
            &&& last.notes.len() > 0 ==> told.notes.len() > 0 && told.notes[0] == last.notes[0]
        }),
{
    later_words_stay(all, m, mission, 0);
}

/// The footer shows three notes at most, the latest ones.
pub proof fn the_footer_has_few_notes(st: AppState, mission: Seq<char>)
    ensures
        footer::footer(st, mission) is Some ==> ({
            let all: Seq<Seq<char>> = footer::collected(st.agents.messages@, mission, 0).notes;
            let shown: Seq<Seq<char>> = footer::footer(st, mission)->0.notes;
            &&& shown.len() <= 3
            &&& shown.len() < 3 ==> shown == all
            &&& forall|i: int| 0 <= i < shown.len() ==> #[trigger] shown[i] == all[i]
        }),
        footer::collected(st.agents.messages@, mission, 0).notes.len() > 0 ==> footer::footer(
            st,
            mission,
        ) is Some,
{
}

} // verus!
