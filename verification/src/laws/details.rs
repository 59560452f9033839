//! What is told of backends, logs, archives and searches.

use vstd::prelude::*;

use crate::agent_ops_view::archive;
use crate::agent_ops_view::archive::RunFile;
use crate::agent_ops_view::archive::Words;
use crate::agent_ops_view::diagnostics;
use crate::agent_ops_view::history;
use crate::agent_ops_view::mcp;
use crate::agent_ops_view::roster;
use crate::agent_ops_view::roster::RosterSelectableRow;
use crate::agent_ops_view::roster_lines;
use crate::artifacts_history_popup;
use crate::artifacts_history_popup::ArchiveList;
use crate::clone_labels;
use crate::editor_view::spans;
use crate::fit;
use crate::laws::labels;
use crate::laws::lookups;
use crate::laws::texts;
use crate::laws::wrapping;
use crate::previews;
use crate::state;
use crate::state::AgentLane;
use crate::state::AgentLaneKind;
use crate::state::AgentMessage;
use crate::state::AgentsState;
use crate::state::AppState;
use crate::state::PersistedArtifactsRun;
use crate::state::SwarmRuntime;
use crate::style::Theme;
use crate::text;
use crate::wrap;

verus! {

/// An archive tells when it was made by the number that its name starts with.
pub proof fn archives_are_dated_by_their_name(t: nat, rest: Seq<char>)
    requires
        t <= u128::MAX,
    ensures
        history::archive_time(text::decimal(t) + seq!['-'] + rest) == Some(t),
{
    let d: Seq<char> = text::decimal(t);
    let s: Seq<char> = d + seq!['-'] + rest;
    texts::numbers_are_spelled_out(t);
    assert forall|i: int| 0 <= i < d.len() implies #[trigger] d[i] != '-' by {
        assert('0' <= d[i] <= '9');
    }
    texts::characters_are_found_first(d, '-', rest);
    assert(text::head(s, d.len() as int) =~= d);
    texts::numbers_are_read_back(t, u128::MAX as nat);
    assert forall|i: int| 0 <= i < d.len() implies text::digit(#[trigger] d[i]) by {
        assert('0' <= d[i] <= '9');
    }
}

/// An archive whose name starts with no number is of no known time.
pub proof fn other_archives_have_no_date(name: Seq<char>)
    requires
        name.len() > 0,
        !('0' <= name[0] <= '9'),
    ensures
        history::archive_time(name) is None,
{
    let prefix: Seq<char> = text::before_first(name, '-');
    text::char_at_or_after_is_first(name, '-', 0);
    if prefix.len() > 0 {
        assert(prefix[0] == name[0]);
        assert(!text::digit(prefix[0]));
    }
}

/// A line of the log is told by its time of day, its level, its source and its text; the date, the
/// fractions of a second and the colon behind the source are left out.
pub proof fn log_lines_are_told_in_short(
    date: Seq<char>,
    time: Seq<char>,
    fraction: Seq<char>,
    level: Seq<char>,
    source: Seq<char>,
    said: Seq<char>,
)
    requires
        labels::lacks(date, ' '),
        labels::lacks(time, ' '),
        labels::lacks(time, 'T'),
        labels::lacks(time, '.'),
        labels::lacks(fraction, ' '),
        labels::lacks(fraction, 'T'),
        fraction.len() > 0,
        fraction[fraction.len() - 1] != 'Z',
        labels::lacks(level, ' '),
        labels::lacks(source, ' '),
        source.len() > 0,
        source[source.len() - 1] != ':',
    ensures
        diagnostics::compact_log(
            (date + seq!['T'] + (time + seq!['.'] + fraction + seq!['Z'])) + seq![' '] + (level
                + seq![' '] + ((source + seq![':']) + seq![' '] + said)),
        ) == time + " "@ + level + " "@ + source + " "@ + said,
{
    let clock: Seq<char> = time + seq!['.'] + fraction + seq!['Z'];
    let stamp: Seq<char> = date + seq!['T'] + clock;
    let tail3: Seq<char> = (source + seq![':']) + seq![' '] + said;
    let tail2: Seq<char> = level + seq![' '] + tail3;
    let line: Seq<char> = stamp + seq![' '] + tail2;
    texts::characters_are_found_first(stamp, ' ', tail2);
    texts::characters_are_found_first(level, ' ', tail3);
    texts::characters_are_found_first(source + seq![':'], ' ', said);
    assert(text::head(line, stamp.len() as int) =~= stamp);
    assert(text::tail(line, stamp.len() + 1int) =~= tail2);
    assert(text::head(tail2, level.len() as int) =~= level);
    assert(text::tail(tail2, level.len() + 1int) =~= tail3);
    let named: Seq<char> = source + seq![':'];
    assert(text::head(tail3, named.len() as int) =~= named);
    assert(text::tail(tail3, named.len() + 1int) =~= said);
    reveal_with_fuel(text::split_few, 4);
    let parts: Seq<Seq<char>> = text::split_few(line, ' ', 4);
    assert(parts =~= seq![stamp, level, named, said]);
    texts::the_last_part_follows_the_last_separator(date, 'T', clock);
    let bare: Seq<char> = time + seq!['.'] + fraction;
    assert(clock =~= bare.push('Z'));
    assert(clock.subrange(0, clock.len() - 1) =~= bare);
    assert(bare[bare.len() - 1] == fraction[fraction.len() - 1]);
    assert(text::without_trailing(bare, 'Z') == bare);
    assert(text::without_trailing(clock, 'Z') == bare);
    texts::characters_are_found_first(time, '.', fraction);
    assert(text::head(bare, time.len() as int) =~= time);
    assert(named.subrange(0, named.len() - 1) =~= source);
    assert(text::without_trailing(source, ':') == source);
    assert(text::without_trailing(named, ':') == source);
}

/// What is told behind a prefix is told whole; nothing of it but blanks is lost.
pub proof fn diagnostics_are_told_whole(
    first: Seq<char>,
    other: Seq<char>,
    value: Seq<char>,
    width: int,
) -> (parts: Seq<Seq<char>>)
    ensures
        parts.len() == diagnostics::prefixed_lines(first, other, value, width).len(),
        wrapping::dark(text::run_together(parts)) == wrapping::dark(value),
        forall|i: int|
            #![trigger parts[i]]
            0 <= i < parts.len() ==> diagnostics::prefixed_lines(first, other, value, width)[i] == (
            if i == 0 {
                first
            } else {
                other
            }) + parts[i],
{
    let room: int = text::max_int(text::monus(width, first.len() as int), 1);
    wrapping::cells_keep_every_letter(value, room);
    wrap::cell_lines(value, room)
}

/// The tab of the server starts with its state, behind the key for it.
pub proof fn the_server_tells_its_state(st: AppState, width: int)
    ensures
        mcp::all_lines(st, width).len() > 4,
        mcp::all_lines(st, width)[2] == " "@ + fit::left("STATE"@, mcp::key_width(width)) + " "@
            + fit::left(
            wrap::cell_lines(st.agents.mcp.state_label@, mcp::value_width(width))[0],
            mcp::value_width(width),
        ),
{
    wrap::some_cell_line_is_left(st.agents.mcp.state_label@, mcp::value_width(width));
    wrap::some_cell_line_is_left(st.agents.mcp.endpoint@, mcp::value_width(width));
    let k: int = mcp::key_width(width);
    let v: int = mcp::value_width(width);
    let own: Seq<Seq<char>> = mcp::kv_lines(k, v, "STATE"@, st.agents.mcp.state_label@, false);
    assert(own[0] == mcp::all_lines(st, width)[2]);
}

/// A backend whose program was found, or of which there is an agent, is active; else it is idle.
pub proof fn backends_tell_whether_they_are_there(st: AppState, width: int)
    ensures
        roster_lines::header_lines(st, width)[1] == "  "@ + roster_lines::padded_name("Codex"@, 7)
            + "  "@ + (if st.agents.codex_cli_available || exists|i: int|
            0 <= i < st.agents.agents@.len() && (#[trigger] st.agents.agents@[i]).kind is Codex {
            "available"@ + "  "@ + "active"@
        } else {
            "not found"@ + "  "@ + "idle"@
        }),
        roster_lines::header_lines(st, width)[3] == "  "@ + roster_lines::padded_name("Gemini"@, 7)
            + "  "@ + (if st.agents.gemini_cli_available || exists|i: int|
            0 <= i < st.agents.agents@.len() && (#[trigger] st.agents.agents@[i]).kind is Gemini {
            "available"@ + "  "@ + "active"@
        } else {
            "not found"@ + "  "@ + "idle"@
        }),
{
    assert(roster_lines::header_lines(st, width)[1] =~= "  "@ + roster_lines::padded_name(
        "Codex"@,
        7,
    ) + "  "@ + (if st.agents.codex_cli_available || roster_lines::some_kind(
        st,
        AgentLaneKind::Codex,
    ) {
        "available"@ + "  "@ + "active"@
    } else {
        "not found"@ + "  "@ + "idle"@
    }));
    assert(roster_lines::header_lines(st, width)[3] =~= "  "@ + roster_lines::padded_name(
        "Gemini"@,
        7,
    ) + "  "@ + (if st.agents.gemini_cli_available || roster_lines::some_kind(
        st,
        AgentLaneKind::Gemini,
    ) {
        "available"@ + "  "@ + "active"@
    } else {
        "not found"@ + "  "@ + "idle"@
    }));
}

/// The line of an agent tells its role, its status, the age of its last sign of life, its queue and
/// its mission; the cursor stands before the selected one.
pub proof fn agents_tell_how_they_are(
    st: AppState,
    swarm: Option<&SwarmRuntime>,
    w: Seq<usize>,
    idx: usize,
)
    requires
        !st.ascii_fallback,
    ensures
        ({
            let agent: AgentLane = st.agents.agents@[idx as int];
            let line: Seq<char> = roster_lines::agent_line(st, swarm, w, idx);
            &&& line.len() > 0
            &&& line[0] == '➜' <==> roster::selected(st) == Some(
                RosterSelectableRow::Agent { agent_idx: idx },
            ) && st.agents.roster_tree_selected is None
            &&& line.skip(1) == fit::left(roster_lines::role_cell(st, swarm, agent), w[0] as int)
                + " "@ + fit::left(agent.status_label@, w[1] as int) + " "@ + fit::right(
                text::decimal(agent.heartbeat_age_secs as nat) + "s"@,
                w[2] as int,
            ) + " "@ + fit::right(text::decimal(agent.queue_len as nat), w[3] as int) + " "@
                + fit::left(
                if agent.current_mission is Some {
                    agent.current_mission->0@
                } else {
                    "--"@
                },
                w[4] as int,
            )
        }),
{
    let agent: AgentLane = st.agents.agents@[idx as int];
    let line: Seq<char> = roster_lines::agent_line(st, swarm, w, idx);
    let cells: Seq<char> = roster_lines::five_cells(
        w,
        roster_lines::role_cell(st, swarm, agent),
        agent.status_label@,
        text::decimal(agent.heartbeat_age_secs as nat) + "s"@,
        text::decimal(agent.queue_len as nat),
        match agent.current_mission {
            Some(m) => m@,
            None => "--"@,
        },
    );
    assert(line.skip(1) =~= cells);
}

/// An agent that can be preferred has a box, and the box is checked exactly where it is.
pub proof fn preferred_agents_are_checked(
    st: AppState,
    swarm: Option<&SwarmRuntime>,
    agent: AgentLane,
)
    requires
        labels::lacks(agent.id@, '#'),
        !agent.chat_clone,
    ensures
        ({
            let cell: Seq<char> = roster_lines::role_cell(st, swarm, agent);
            let role: Seq<char> = clone_labels::role_label(st.agents.role_names@, agent.role@);
            &&& agent.swarm_priority && (exists|i: int|
                0 <= i < st.agents.swarm_priority_agent_ids@.len() && (
                #[trigger] st.agents.swarm_priority_agent_ids@[i])@ == agent.id@) ==> cell
                == "[x] "@ + role
            &&& agent.swarm_priority && !(exists|i: int|
                0 <= i < st.agents.swarm_priority_agent_ids@.len() && (
                #[trigger] st.agents.swarm_priority_agent_ids@[i])@ == agent.id@) ==> cell
                == "[ ] "@ + role
            &&& !agent.swarm_priority ==> cell == "    "@ + role
        }),
{
    reveal_strlit("#swarm-");
    texts::texts_without_the_mark_are_whole(agent.id@, "#swarm-"@);
}

/// An effort that was chosen for an agent comes before the one it starts with.
pub proof fn chosen_efforts_come_first(st: AppState, id: Seq<char>)
    ensures
        ({
            let chosen: Option<String> = state::value_of(
                st.agents.codex_selected_reasoning_effort@,
                id,
            );
            let given: Option<String> = state::value_of(
                st.agents.codex_default_reasoning_effort@,
                id,
            );
            &&& chosen is Some ==> roster_lines::chosen_effort(st, id) == Some(chosen->0@)
            &&& chosen is None && given is Some ==> roster_lines::chosen_effort(st, id) == Some(
                given->0@,
            )
        }),
{
}

/// A text of one line is its own preview where it is short enough; a longer one is cut, and dots
/// tell so.
pub proof fn short_lines_are_their_own_preview(s: Seq<char>, max: int)
    requires
        labels::bare(s),
        labels::lacks(s, '\n'),
        0 <= max,
    ensures
        s.len() <= max ==> previews::preview(s, max) == s,
        s.len() > max ==> previews::preview(s, max) == s.take(max) + "..."@,
{
    texts::texts_without_the_character_are_one_part(s, '\n');
    assert(text::lines_of(s) == seq![s]);
    texts::nothing_else_is_trimmed(s);
    reveal_with_fuel(previews::dark_lines, 2);
    assert(previews::dark_lines(seq![s], 1) =~= seq![s]);
    reveal_with_fuel(text::joined, 2);
    assert(text::joined(seq![s], " / "@) =~= s);
    if s.len() > max {
        assert(text::head(s, max) =~= s.take(max));
    }
}

proof fn words_in_front(a: Seq<char>, b: Seq<char>, n: int)
    requires
        0 <= n <= a.len(),
    ensures
        archive::words_upto(a + b, n) == archive::words_upto(a, n),
    decreases n,
{
    if n > 0 {
        words_in_front(a, b, n - 1);
        assert((a + b)[n - 1] == a[n - 1]);
    }
}

proof fn words_behind(a: Seq<char>, c: char, b: Seq<char>, n: int)
    requires
        !archive::word_char(c),
        0 <= n <= b.len(),
    ensures
        archive::words_upto(a + seq![c] + b, a.len() + 1 + n) == (Words {
            done: archive::tokens(a) + archive::words_upto(b, n).done,
            current: archive::words_upto(b, n).current,
        }),
    decreases n,
{
    let s: Seq<char> = a + seq![c] + b;
    let k: int = a.len() as int;
    if n <= 0 {
        words_in_front(a, seq![c] + b, k);
        assert(s =~= a + (seq![c] + b));
        assert(s[k] == c);
        assert(archive::words_upto(s, k + 1) == (Words {
            done: archive::with_word(
                archive::words_upto(s, k).done,
                archive::words_upto(s, k).current,
            ),
            current: Seq::empty(),
        }));
        assert(archive::tokens(a) + Seq::<Seq<char>>::empty() =~= archive::tokens(a));
    } else {
        words_behind(a, c, b, n - 1);
        assert(s[k + n] == b[n - 1]);
        let before: Words = archive::words_upto(b, n - 1);
        if !archive::word_char(b[n - 1]) {
            assert(archive::with_word(archive::tokens(a) + before.done, before.current)
                =~= archive::tokens(a) + archive::with_word(before.done, before.current));
        }
    }
}

/// The words of two texts with a character between them that belongs to no word are the words of
/// the first and then those of the second.
pub proof fn words_end_between_texts(a: Seq<char>, c: char, b: Seq<char>)
    requires
        !archive::word_char(c),
    ensures
        archive::tokens(a + seq![c] + b) == archive::tokens(a) + archive::tokens(b),
{
    words_behind(a, c, b, b.len() as int);
    let last: Words = archive::words_upto(b, b.len() as int);
    assert(archive::with_word(archive::tokens(a) + last.done, last.current) =~= archive::tokens(a)
        + archive::with_word(last.done, last.current));
}

proof fn one_word(s: Seq<char>, n: int)
    requires
        0 <= n <= s.len(),
        forall|i: int| 0 <= i < s.len() ==> archive::word_char(#[trigger] s[i]),
    ensures
        archive::words_upto(s, n) == (Words { done: Seq::empty(), current: s.take(n) }),
    decreases n,
{
    if n > 0 {
        one_word(s, n - 1);
        assert(s.take(n) =~= s.take(n - 1).push(s[n - 1]));
    } else {
        assert(s.take(0) =~= Seq::<char>::empty());
    }
}

/// A text that is one word is found by that word in small letters, unless it is a single byte.
pub proof fn a_word_is_found_by_itself(s: Seq<char>)
    requires
        forall|i: int| 0 <= i < s.len() ==> archive::word_char(#[trigger] s[i]),
    ensures
        text::byte_len(s) >= 2 ==> archive::tokens(s) == seq![text::lowered_text(s)],
        text::byte_len(s) < 2 ==> archive::tokens(s).len() == 0,
{
    one_word(s, s.len() as int);
    assert(s.take(s.len() as int) =~= s);
    assert(Seq::<Seq<char>>::empty().push(text::lowered_text(s)) =~= seq![text::lowered_text(s)]);
}

/// A run that is kept among the runs belongs to the mission that its directory is named after, and
/// is called by that mission's title where it has one.
pub proof fn runs_belong_to_their_directory(agents: AgentsState, file: RunFile, k: int)
    requires
        file.components@.len() > 1,
        file.components@[0]@ == "runs"@,
        0 <= k < agents.missions@.len(),
        agents.missions@[k].id@ == file.components@[1]@,
        forall|j: int|
            0 <= j < k ==> (#[trigger] agents.missions@[j]).id@ != file.components@[1]@,
    ensures
        archive::run_source(agents, file).1 == file.components@[1]@,
        archive::run_source(agents, file).2 is Mission,
        agents.missions@[k].title@.len() > 0 ==> archive::run_source(agents, file).0
            == "mission: "@ + agents.missions@[k].title@,
        agents.missions@[k].title@.len() == 0 ==> archive::run_source(agents, file).0
            == "mission: "@ + file.components@[1]@,
{
    lookups::missions_are_found_by_identity(agents.missions@, file.components@[1]@);
    let found: int = state::mission_named(agents.missions@, file.components@[1]@)->0;
    assert(found == k) by {
        assert(agents.missions@[k].id@ == file.components@[1]@);
    }
}

/// A run of a chat belongs to the agent that its directory is named after.
pub proof fn chats_belong_to_their_directory(agents: AgentsState, file: RunFile)
    requires
        file.components@.len() > 1,
        file.components@[0]@ == "ad-hoc"@,
    ensures
        archive::run_source(agents, file).0 == "ad-hoc: "@ + file.components@[1]@,
        archive::run_source(agents, file).1 == file.components@[1]@,
        archive::run_source(agents, file).2 is AdHoc,
{
    reveal_strlit("runs");
    reveal_strlit("ad-hoc");
    assert("runs"@.len() != "ad-hoc"@.len());
}

proof fn first_said(messages: Seq<AgentMessage>, id: Seq<char>, i: int)
    requires
        0 <= i,
    ensures
        match archive::first_by(messages, id, i) {
            Some(k) => i <= k < messages.len() && text::opt_text(messages[k].agent_id) == Some(id)
                && forall|j: int|
                i <= j < k ==> text::opt_text((#[trigger] messages[j]).agent_id) != Some(id),
            None => forall|j: int|
                i <= j < messages.len() ==> text::opt_text((#[trigger] messages[j]).agent_id)
                    != Some(id),
        },
    decreases messages.len() - i,
{
    if i < messages.len() && text::opt_text(messages[i].agent_id) != Some(id) {
        first_said(messages, id, i + 1);
    }
}

proof fn last_said(messages: Seq<AgentMessage>, id: Seq<char>, n: int)
    requires
        0 <= n <= messages.len(),
    ensures
        match archive::last_by(messages, id, n) {
            Some(k) => 0 <= k < n && text::opt_text(messages[k].agent_id) == Some(id) && forall|
                j: int,
            |
                k < j < n ==> text::opt_text((#[trigger] messages[j]).agent_id) != Some(id),
            None => forall|j: int|
                0 <= j < n ==> text::opt_text((#[trigger] messages[j]).agent_id) != Some(id),
        },
    decreases n,
{
    if n > 0 && text::opt_text(messages[n - 1].agent_id) != Some(id) {
        last_said(messages, id, n - 1);
    }
}

/// In the run of a swarm, what its planner said first is the plan and what it said last is the
/// report; where it spoke once, that is the report.
pub proof fn planners_plan_first_and_report_last(run: PersistedArtifactsRun, a: int, b: int)
    requires
        run.swarm,
        run.assigned_agents@.len() > 0,
        0 <= a <= b < run.messages@.len(),
        run.messages@[a].agent_id is Some && run.messages@[a].agent_id->0@
            == run.assigned_agents@[0]@,
        run.messages@[b].agent_id is Some && run.messages@[b].agent_id->0@
            == run.assigned_agents@[0]@,
        forall|j: int|
            #![trigger run.messages@[j]]
            0 <= j < run.messages@.len() && (j < a || j > b) ==> text::opt_text(
                run.messages@[j].agent_id,
            ) != Some(run.assigned_agents@[0]@),
    ensures
        archive::plan_and_report(run).1 == Some(b),
        a < b ==> archive::plan_and_report(run).0 == Some(a),
        a == b ==> archive::plan_and_report(run).0 is None,
{
    let planner: Seq<char> = run.assigned_agents@[0]@;
    first_said(run.messages@, planner, 0);
    last_said(run.messages@, planner, run.messages@.len() as int);
    let first: int = archive::first_by(run.messages@, planner, 0)->0;
    let last: int = archive::last_by(run.messages@, planner, run.messages@.len() as int)->0;
    assert(first == a) by {
        assert(text::opt_text(run.messages@[a].agent_id) == Some(planner));
        assert(text::opt_text(run.messages@[first].agent_id) == Some(planner));
    }
    assert(last == b) by {
        assert(text::opt_text(run.messages@[b].agent_id) == Some(planner));
        assert(text::opt_text(run.messages@[last].agent_id) == Some(planner));
    }
}

/// The list of the archive marks the selected line, tells prompts from what answers them, and cuts
/// nothing of an owner or a preview that fits.
pub proof fn archived_artifacts_are_told(
    e: archive::GlobalArchiveEntry,
    selected: bool,
    preview_w: int,
    theme: Theme,
)
    ensures
        ({
            let row = artifacts_history_popup::entry_pieces(e, selected, preview_w, theme);
            &&& row.len() == 6
            &&& row[0].text == "> "@ <==> selected
            &&& e.kind@ == "PROMPT"@ ==> row[1].text == "  "@
            &&& e.kind@ != "PROMPT"@ ==> row[1].text == "↳ "@
            &&& e.preview@.len() <= preview_w && preview_w >= 1 ==> row[5].text == " "@ + e.preview@
        }),
{
    reveal_strlit("> ");
    reveal_strlit("  ");
    assert("> "@[0] == '>');
    assert("  "@[0] == ' ');
}

/// The selected artifact is one of those that were found.
pub proof fn the_selected_artifact_was_found(list: ArchiveList)
    requires
        list.filtered@.len() > 0,
    ensures
        0 <= artifacts_history_popup::selected(list) < list.filtered@.len(),
        list.selected < list.filtered@.len() ==> artifacts_history_popup::selected(list)
            == list.selected,
{
}

/// A tab leads to the next column that the width of a tab divides, and at least one column on.
pub proof fn tabs_lead_to_their_stops(col: int, tab_width: int)
    requires
        0 <= col,
        1 <= tab_width,
    ensures
        1 <= spans::to_tab_stop(col, tab_width) <= tab_width,
        (col + spans::to_tab_stop(col, tab_width)) % tab_width == 0,
{
    let q: int = col / tab_width;
    let r: int = col % tab_width;
    assert(col == q * tab_width + r && 0 <= r < tab_width) by (nonlinear_arith)
        requires
            tab_width >= 1,
            q == col / tab_width,
            r == col % tab_width,
    ;
    assert((q * tab_width + tab_width) % tab_width == 0) by (nonlinear_arith)
        requires
            tab_width >= 1,
    ;
}

} // verus!
