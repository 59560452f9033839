//! What the console reads out of the words of a swarm, and which words stand out.

use vstd::prelude::*;

use crate::agent_console_view::console;
use crate::agent_console_view::footer;
use crate::agent_console_view::footer::Footer;
use crate::agent_console_view::highlights;
use crate::agent_console_view::stages;
use crate::agent_console_view::thread_lines;
use crate::agent_console_view::words;
use crate::laws::labels;
use crate::laws::texts;
use crate::state;
use crate::state::AppState;
use crate::style::Theme;
use crate::text;

verus! {

/// A space before a text without white ends is trimmed, and nothing else.
pub proof fn the_space_before_is_trimmed(s: Seq<char>)
    requires
        labels::bare(s),
    ensures
        text::trimmed(seq![' '] + s) == s,
{
    let t: Seq<char> = seq![' '] + s;
    let ends: (int, int) = texts::trimming_takes_the_white_ends(t);
    assert(t[0] == ' ' && t[1] == s[0]);
    assert(t[t.len() - 1] == s[s.len() - 1]);
    assert(ends.0 == 1);
    assert(ends.1 == t.len());
    assert(t.subrange(1, t.len() as int) =~= s);
}

/// Whether a text can stand for a setting: one word that is not read as none.
pub open spec fn is_setting(s: Seq<char>) -> bool {
    labels::bare(s) && labels::lacks(s, ' ') && labels::lacks(s, '|') && s[0] != '(' && s[0] != 'n'
        && s[0] != 'N'
}

proof fn settings_stay(s: Seq<char>)
    requires
        is_setting(s),
    ensures
        footer::setting(s) == s,
        footer::setting(seq![' '] + s) == s,
{
    reveal_strlit("(none)");
    reveal_strlit("none");
    reveal_strlit("none (config)");
    the_space_before_is_trimmed(s);
    texts::nothing_else_is_trimmed(s);
    assert(text::lowered_text(s)[0] == text::lowered(s[0]));
    assert(text::lowered_text("(none)"@)[0] == '(');
    assert(text::lowered_text("none"@)[0] == 'n');
    assert(text::lowered_text("none (config)"@)[0] == 'n');
    assert("(none)"@[0] == '(');
    if text::starts(s, "(none)"@) {
        assert(s.subrange(0, 6)[0] == s[0]);
    }
}

/// The outcome of the check is what the swarm gives as its result.
pub proof fn the_footer_reads_the_outcome(v: Seq<char>)
    requires
        labels::bare(v),
    ensures
        footer::with_message(footer::no_footer(), "VERIFY result: "@ + v).status == Some(v),
        footer::with_message(footer::no_footer(), "VERIFY result: "@ + v).gates is None,
        footer::with_message(footer::no_footer(), "VERIFY result: "@ + v).template is None,
{
    reveal_strlit("VERIFY result: ");
    reveal_strlit("VERIFY result:");
    reveal_strlit("Swarm template:");
    reveal_strlit("Swarm gates:");
    let t: Seq<char> = "VERIFY result: "@ + v;
    assert(t[0] == 'V' && t[t.len() - 1] == v[v.len() - 1]);
    texts::nothing_else_is_trimmed(t);
    assert(text::tail(t, 14) =~= seq![' '] + v);
    assert(t.subrange(0, 14) =~= "VERIFY result:"@);
    the_space_before_is_trimmed(v);
    if text::starts(t, "Swarm template:"@) {
        assert(t.subrange(0, 15)[0] == t[0]);
        assert("Swarm template:"@[0] == 'S');
    }
    if text::starts(t, "Swarm gates:"@) {
        assert(t.subrange(0, 12)[0] == t[0]);
        assert("Swarm gates:"@[0] == 'S');
    }
}

/// The gates are those that the swarm names.
pub proof fn the_footer_reads_the_gates(v: Seq<char>)
    requires
        is_setting(v),
    ensures
        footer::with_message(footer::no_footer(), "Swarm gates: "@ + v).gates == Some(v),
        footer::with_message(footer::no_footer(), "Swarm gates: "@ + v).template is None,
        footer::with_message(footer::no_footer(), "Swarm gates: "@ + v).status is None,
{
    reveal_strlit("Swarm gates: ");
    reveal_strlit("Swarm gates:");
    reveal_strlit("Swarm template:");
    reveal_strlit(" (");
    let t: Seq<char> = "Swarm gates: "@ + v;
    assert(t[0] == 'S' && t[t.len() - 1] == v[v.len() - 1]);
    texts::nothing_else_is_trimmed(t);
    texts::nothing_else_is_trimmed(v);
    assert(text::tail(t, 12) =~= seq![' '] + v);
    assert(t.subrange(0, 12) =~= "Swarm gates:"@);
    the_space_before_is_trimmed(v);
    texts::texts_without_the_mark_are_whole(v, " ("@);
    settings_stay(v);
    if text::starts(t, "Swarm template:"@) {
        assert(t.subrange(0, 15)[6] == t[6]);
        assert(t[6] == 'g');
        assert("Swarm template:"@[6] == 't');
    }
}

proof fn one_part(s: Seq<char>)
    requires
        labels::lacks(s, '|'),
    ensures
        footer::parts_at(s, " | "@) == seq![s],
{
    reveal_strlit(" | ");
    texts::texts_are_found_where_they_stand_first(s, " | "@);
    if text::find(s, " | "@) is Some {
        let k: int = text::find(s, " | "@)->0;
        assert(s.subrange(k, k + 3)[1] == s[k + 1]);
        assert(" | "@[1] == '|');
    }
}

/// The template and the mission of a swarm are those that it announces.
pub proof fn the_footer_reads_the_template(template: Seq<char>, mission: Seq<char>)
    requires
        is_setting(template),
        is_setting(mission),
    ensures
        ({
            let told: Footer = footer::with_message(
                footer::no_footer(),
                "Swarm template: "@ + (template + " | "@ + ("mission: "@ + mission)),
            );
            &&& told.template == Some(template)
            &&& told.mission == Some(mission)
            &&& told.gates is None
            &&& told.status is None
        }),
{
    reveal_strlit("Swarm template: ");
    reveal_strlit("Swarm template:");
    reveal_strlit(" | ");
    reveal_strlit("mission: ");
    reveal_strlit("mission:");
    reveal_strlit("integrator:");
    reveal_strlit("verifier:");
    reveal_strlit("gates:");
    let last: Seq<char> = "mission: "@ + mission;
    let said: Seq<char> = template + " | "@ + last;
    let t: Seq<char> = "Swarm template: "@ + said;
    assert(t[0] == 'S' && t[t.len() - 1] == mission[mission.len() - 1]);
    assert(said[0] == template[0] && said[said.len() - 1] == mission[mission.len() - 1]);
    assert(last[0] == 'm' && last[last.len() - 1] == mission[mission.len() - 1]);
    texts::nothing_else_is_trimmed(t);
    texts::nothing_else_is_trimmed(last);
    texts::nothing_else_is_trimmed(template);
    assert(text::tail(t, 15) =~= seq![' '] + said);
    assert(t.subrange(0, 15) =~= "Swarm template:"@);
    the_space_before_is_trimmed(said);
    texts::texts_part_at_their_mark(template, " | "@, last);
    assert(labels::lacks(last, '|'));
    one_part(last);
    let parts: Seq<Seq<char>> = footer::parts_at(said, " | "@);
    assert(parts =~= seq![template, last]);
    assert(text::tail(last, 8) =~= seq![' '] + mission);
    assert(last.subrange(0, 8) =~= "mission:"@);
    reveal_with_fuel(footer::last_value, 3);
    settings_stay(template);
    settings_stay(mission);
    if text::starts(last, "integrator:"@) {
        assert(last.subrange(0, 11)[0] == last[0]);
        assert("integrator:"@[0] == 'i');
    }
    if text::starts(last, "verifier:"@) {
        assert(last.subrange(0, 9)[0] == last[0]);
        assert("verifier:"@[0] == 'v');
    }
    if text::starts(last, "gates:"@) {
        assert(last.subrange(0, 6)[0] == last[0]);
        assert("gates:"@[0] == 'g');
    }
}

/// What an agent has left and what it has used are counted apart, for each backend, and in a mission
/// apart from everything else.
pub proof fn counts_are_kept_apart(st: AppState, id: Seq<char>, mission: Seq<char>)
    ensures
        stages::left_pct(st, false, id, None) == state::value_of(
            st.agents.codex_context_remaining_pct@,
            id,
        ),
        stages::left_pct(st, true, id, None) == state::value_of(
            st.agents.claude_context_remaining_pct@,
            id,
        ),
        stages::used_tokens(st, false, id, None) == state::value_of(
            st.agents.codex_used_tokens@,
            id,
        ),
        stages::used_tokens(st, true, id, None) == state::value_of(
            st.agents.claude_used_tokens@,
            id,
        ),
        state::value_of(st.agents.codex_mission_context_remaining_pct@, mission) is Some
            ==> stages::left_pct(st, false, id, Some(mission)) == state::value_of(
            state::value_of(st.agents.codex_mission_context_remaining_pct@, mission)->0@,
            id,
        ),
        state::value_of(st.agents.codex_mission_context_remaining_pct@, mission) is None
            ==> stages::left_pct(st, false, id, Some(mission)) is None,
        state::value_of(st.agents.codex_mission_used_tokens@, mission) is Some
            ==> stages::used_tokens(st, false, id, Some(mission)) == state::value_of(
            state::value_of(st.agents.codex_mission_used_tokens@, mission)->0@,
            id,
        ),
{
}

/// The context is told by what is left of it, what is used of it and how large it is, as far as each
/// is known.
pub proof fn the_context_is_told_as_far_as_known(pct: u32, used: u32, max: u32)
    ensures
        console::context_text(Some(pct), Some(used), Some(max)) == text::decimal(pct as nat)
            + "% "@ + stages::short_count(used as nat) + "/"@ + stages::short_count(max as nat),
        console::context_text(Some(pct), None, None) == text::decimal(pct as nat) + "%"@,
        console::context_text(None, Some(used), Some(max)) == stages::short_count(used as nat)
            + "/"@ + stages::short_count(max as nat),
        console::context_text(None, None, None) == "--"@,
        stages::context_words(Some(pct), Some(used), Some(max)) == "Context: "@ + console::context_text(
            Some(pct),
            None,
            None,
        ) + " left "@ + console::context_text(None, Some(used), Some(max)),
        stages::context_words(None, Some(used), None) == "Tokens: "@ + stages::short_count(
            used as nat,
        ),
{
    reveal_strlit("%");
    reveal_strlit(" left ");
    reveal_strlit("% left ");
    let p: Seq<char> = text::decimal(pct as nat);
    let u: Seq<char> = stages::short_count(used as nat);
    let m: Seq<char> = stages::short_count(max as nat);
    assert("%"@ + " left "@ =~= "% left "@);
    assert("Context: "@ + p + "% left "@ + u + "/"@ + m =~= "Context: "@ + (p + "%"@) + " left "@ + (
    u + "/"@ + m));
}

/// An address on the web is a link.
pub proof fn addresses_are_links(s: Seq<char>)
    requires
        s.len() > 0,
        !text::white(s.last()),
    ensures
        words::link_or_path("http://"@ + s),
        words::link_or_path("https://"@ + s),
{
    reveal_strlit("http://");
    reveal_strlit("https://");
    let a: Seq<char> = "http://"@ + s;
    let b: Seq<char> = "https://"@ + s;
    assert(a[0] == 'h' && a[a.len() - 1] == s.last());
    assert(b[0] == 'h' && b[b.len() - 1] == s.last());
    texts::nothing_else_is_trimmed(a);
    texts::nothing_else_is_trimmed(b);
    assert(a.subrange(0, 7) =~= "http://"@);
    assert(b.subrange(0, 8) =~= "https://"@);
}

proof fn name_behind(dir: Seq<char>, name: Seq<char>, n: int)
    requires
        labels::lacks(name, '/'),
        labels::lacks(name, '\\'),
        dir.len() < n <= dir.len() + 1 + name.len(),
    ensures
        words::name_start(dir + seq!['/'] + name, n) == Some(dir.len() + 1int),
    decreases n,
{
    let s: Seq<char> = dir + seq!['/'] + name;
    if n == dir.len() + 1 {
        assert(s[n - 1] == '/');
    } else {
        assert(s[n - 1] == name[n - 2 - dir.len()]);
        name_behind(dir, name, n - 1);
    }
}

/// A file with an ending in a directory is a path.
pub proof fn files_in_directories_are_paths(dir: Seq<char>, name: Seq<char>, ending: Seq<char>)
    requires
        labels::bare(dir),
        labels::lacks(name, '/'),
        labels::lacks(name, '\\'),
        labels::bare(ending),
        labels::lacks(ending, '/'),
        labels::lacks(ending, '\\'),
    ensures
        words::link_or_path(dir + seq!['/'] + (name + seq!['.'] + ending)),
{
    let file: Seq<char> = name + seq!['.'] + ending;
    let s: Seq<char> = dir + seq!['/'] + file;
    assert(s[0] == dir[0] && s[s.len() - 1] == ending[ending.len() - 1]);
    texts::nothing_else_is_trimmed(s);
    name_behind(dir, file, s.len() as int);
    assert(text::tail(s, dir.len() + 1int) =~= file);
    text::char_at_or_after_is_first(file, '.', 0);
    assert(file[name.len() as int] == '.');
    text::char_at_or_after_is_first(s, '/', 0);
    assert(s[dir.len() as int] == '/');
}

/// A word of letters alone is no link and no number, and a command only where it names a tool.
pub proof fn plain_words_are_plain(s: Seq<char>)
    requires
        s.len() > 0,
        forall|i: int| 0 <= i < s.len() ==> text::alpha(#[trigger] s[i]),
    ensures
        !words::link_or_path(s),
        !words::numberish(s),
        words::command(s) <==> words::tool(text::lowered_text(s)),
{
    reveal_strlit("http://");
    reveal_strlit("https://");
    reveal_strlit("#L");
    texts::nothing_else_is_trimmed(s);
    text::char_at_or_after_is_first(s, '/', 0);
    text::char_at_or_after_is_first(s, '\\', 0);
    text::char_at_or_after_is_first(s, '.', 0);
    text::char_at_or_after_is_first(s, ' ', 0);
    text::char_at_or_after_is_first(s, '\t', 0);
    text::char_at_or_after_is_first(s, '\n', 0);
    text::char_at_or_after_is_first(s, '\r', 0);
    if text::starts(s, "http://"@) {
        assert(s.subrange(0, 7)[4] == s[4]);
        assert("http://"@[4] == ':');
    }
    if text::starts(s, "https://"@) {
        assert(s.subrange(0, 8)[5] == s[5]);
        assert("https://"@[5] == ':');
    }
    texts::texts_without_the_mark_are_whole(s, "#L"@);
    texts::texts_are_found_where_they_stand_first(s, "#L"@);
    assert(words::unclosed(s) == s);
}

/// What is more than one word is a command where it stands as code.
pub proof fn several_words_are_a_command(a: Seq<char>, b: Seq<char>)
    requires
        labels::bare(a),
        labels::bare(b),
    ensures
        words::command(a + seq![' '] + b),
{
    let s: Seq<char> = a + seq![' '] + b;
    assert(s[0] == a[0] && s[s.len() - 1] == b[b.len() - 1]);
    texts::nothing_else_is_trimmed(s);
    text::char_at_or_after_is_first(s, ' ', 0);
    assert(s[a.len() as int] == ' ');
}

proof fn letters_go_on(s: Seq<char>, i: int)
    requires
        0 <= i <= s.len(),
        forall|j: int| i <= j < s.len() ==> text::alpha(#[trigger] s[j]),
    ensures
        highlights::letters_end(s, i) == s.len(),
    decreases s.len() - i,
{
    if i < s.len() {
        letters_go_on(s, i + 1);
    }
}

/// The outcome of a check is the word behind the announcement of the result.
pub proof fn the_outcome_stands_behind_its_announcement(before: Seq<char>, outcome: Seq<char>)
    requires
        labels::lacks(before, 'V'),
        outcome.len() > 0,
        forall|i: int| 0 <= i < outcome.len() ==> text::alpha(#[trigger] outcome[i]),
    ensures
        highlights::verify_outcome(before + "VERIFY result:"@ + (seq![' '] + outcome)) == Some(
            (before.len() + 15int, before.len() + 15int + outcome.len()),
        ),
{
    reveal_strlit("VERIFY result:");
    let s: Seq<char> = before + "VERIFY result:"@ + (seq![' '] + outcome);
    texts::texts_part_at_their_mark(before, "VERIFY result:"@, seq![' '] + outcome);
    texts::texts_are_found_where_they_stand_first(s, "VERIFY result:"@);
    let k: int = text::find(s, "VERIFY result:"@)->0;
    assert(text::head(s, k).len() == k);
    assert(k == before.len());
    assert(s[k + 14] == ' ' && s[k + 15] == outcome[0]);
    reveal_with_fuel(highlights::dark_from, 3);
    assert forall|j: int| k + 15 <= j < s.len() implies text::alpha(#[trigger] s[j]) by {
        assert(s[j] == outcome[j - k - 15]);
    }
    letters_go_on(s, k + 15);
}

/// A mark for better is green, one for worse is red; a grade that fails is red, and the best grade
/// is green.
pub proof fn marks_and_grades_have_their_color(s: Seq<char>, theme: Theme)
    ensures
        thread_lines::mark_color('↑', theme) == theme.success,
        thread_lines::mark_color('↓', theme) == theme.error,
        text::includes(s, "Failing"@) ==> thread_lines::grade_color(s, theme) == theme.error,
        text::includes(s, "Exceptional"@) && !text::includes(s, "Failing"@) && !text::includes(
            s,
            "Minimum"@,
        ) && !text::includes(s, "Standard"@) && !text::includes(s, "Excellent"@)
            ==> thread_lines::grade_color(s, theme) == theme.success,
        text::includes(s, "degraded"@) && !text::includes(s, "improved"@)
            ==> thread_lines::change_color(s, theme) == theme.error,
{
}

} // verus!
