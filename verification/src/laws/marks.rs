//! What is marked, and what is told where nothing is there.

use vstd::prelude::*;

use crate::agent_console_view::breather;
use crate::agent_console_view::cache;
use crate::agent_console_view::cache::RowsCache;
use crate::agent_console_view::console;
use crate::agent_console_view::layout;
use crate::agent_console_view::rows;
use crate::agent_console_view::stages;
use crate::agent_console_view::thread;
use crate::agent_console_view::turns;
use crate::agent_ops_view::archive;
use crate::agent_ops_view::artifacts;
use crate::agent_ops_view::artifacts_styled;
use crate::agent_ops_view::cards::Card;
use crate::agent_ops_view::mcp;
use crate::agent_ops_view::popup;
use crate::agent_ops_view::roster::RosterBodyMeta;
use crate::agent_ops_view::roster::RosterBodyNode;
use crate::agent_ops_view::roster_lines;
use crate::agent_ops_view::swarm_details;
use crate::artifacts_history_popup;
use crate::artifacts_history_popup::ArchiveList;
use crate::artifacts_popup::json;
use crate::clone_labels;
use crate::state;
use crate::state::AppState;
use crate::state::Entry;
use crate::state::PersistedPatchRecord;
use crate::state::RosterTreeBranch;
use crate::state::RosterTreeSelection;
use crate::state::SwarmPersistenceView;
use crate::state::SwarmRuntime;
use crate::style::Piece;
use crate::style::Theme;
use crate::text;

verus! {

/// What stands at or before a dark character is not trimmed off the end.
proof fn the_front_is_kept(s: Seq<char>, k: int)
    requires
        0 <= k < s.len(),
        !text::white(s[k]),
    ensures
        text::trimmed_end(s).len() > k,
        forall|j: int| 0 <= j <= k ==> #[trigger] text::trimmed_end(s)[j] == s[j],
    decreases s.len(),
{
    if text::white(s[s.len() - 1]) {
        the_front_is_kept(s.subrange(0, s.len() - 1), k);
    }
}

/// In the tree of artifacts the selected card has the mark in front, folded or not, and no other
/// card has it.
pub proof fn the_selected_card_is_marked_in_the_tree(
    st: AppState,
    v: Seq<Card>,
    w: Seq<usize>,
    selected: int,
    i: int,
)
    ensures
        artifacts::tree_row(st, v, w, selected, i).len() > 0,
        artifacts::tree_row(st, v, w, selected, i)[0] == (if i == selected {
            '>'
        } else {
            ' '
        }),
{
    if v[i].kind == "PROMPT"@ {
        let row: Seq<char> = artifacts::card_row(v[i], w, i == selected, false, st.ascii_fallback);
        the_front_is_kept(row, 1);
        assert(text::trimmed_end(row)[0] == row[0]);
    }
}

/// Where every artifact that was found is still there, each has its row.
proof fn found_artifacts_have_rows(list: ArchiveList, width: int, theme: Theme, n: int)
    requires
        0 <= n <= list.filtered@.len(),
        forall|k: int|
            0 <= k < list.filtered@.len() ==> (#[trigger] list.filtered@[k]).1
                < list.index@.len(),
    ensures
        artifacts_history_popup::entry_rows(list, width, theme, n).len() == n,
        forall|k: int|
            0 <= k < n ==> #[trigger] artifacts_history_popup::entry_rows(list, width, theme, n)[k]
                == artifacts_history_popup::entry_pieces(
                list.index@[list.filtered@[k].1 as int],
                k == artifacts_history_popup::selected(list),
                width,
                theme,
            ),
    decreases n,
{
    if n > 0 {
        found_artifacts_have_rows(list, width, theme, n - 1);
        assert(list.filtered@[n - 1].1 < list.index@.len());
    }
}

/// What was found in the archive is listed in its order below the headings, and the selected one
/// has the mark in front, and no other has it.
pub proof fn the_selected_find_is_marked(list: ArchiveList, theme: Theme, width: int, k: int)
    requires
        0 <= k < list.filtered@.len(),
        forall|j: int|
            0 <= j < list.filtered@.len() ==> (#[trigger] list.filtered@[j]).1
                < list.index@.len(),
    ensures
        ({
            let row: Seq<Piece> = artifacts_history_popup::rows(list, theme, width)[4 + k];
            let e = list.index@[list.filtered@[k].1 as int];
            &&& row.len() == 6
            &&& row[0].text == (if k == list.selected || (k == list.filtered@.len() - 1
                && list.selected >= list.filtered@.len()) {
                "> "@
            } else {
                "  "@
            })
            &&& row[1].text == (if e.kind@ == "PROMPT"@ {
                "  "@
            } else {
                "↳ "@
            })
            &&& row[3].text == artifacts_history_popup::cell(e.owner@, 30)
            &&& row[4].text == artifacts_history_popup::cell(e.time_label@, 14)
        }),
{
    reveal(artifacts_history_popup::rows);
    let n: int = list.filtered@.len() as int;
    let room: int = text::monus(text::max_int(width, 1), 61);
    found_artifacts_have_rows(list, room, theme, n);
    let listed: Seq<Seq<Piece>> = artifacts_history_popup::entry_rows(list, room, theme, n);
    assert(artifacts_history_popup::rows(list, theme, width)[4 + k] == listed[k]);
}

/// Where nothing was found it is told so: with nothing searched for there are no artifacts, else
/// none match.
pub proof fn an_empty_find_is_told(list: ArchiveList, theme: Theme, width: int)
    requires
        list.filtered@.len() == 0,
    ensures
        artifacts_history_popup::rows(list, theme, width).len() == 8,
        artifacts_history_popup::rows(list, theme, width)[5].len() == 1,
        artifacts_history_popup::rows(list, theme, width)[5][0].text == (if list.query@.len()
            == 0 {
            "No archived artifacts found."@
        } else {
            "No artifacts match your search."@
        }),
        artifacts_history_popup::rows(list, theme, width)[7].len() == 1,
        artifacts_history_popup::rows(list, theme, width)[7][0].text == (if list.query@.len()
            == 0 {
            "Enter open | A all | D 24h | W 7d | M 30d | type to search | Esc close"@
        } else {
            "Enter open | Backspace delete char | Ctrl+U clear | Esc clear/close"@
        }),
{
    reveal(artifacts_history_popup::rows);
    let room: int = text::monus(text::max_int(width, 1), 61);
    assert(artifacts_history_popup::entry_rows(list, room, theme, 0) =~= Seq::empty());
}

/// The stages that come without details have their own words.
pub proof fn plain_stages_have_their_words()
    ensures
        stages::stage_words("starting"@) == "Starting"@,
        stages::stage_words("queued"@) == "Queued"@,
        stages::stage_words("warning"@) == "Warning"@,
        stages::stage_words("error"@) == "Error"@,
        stages::stage_words("stream_error"@) == "Stream error"@,
        stages::stage_words("stream.error"@) == "Stream error"@,
{
    reveal_strlit("starting");
    reveal_strlit("queued");
    reveal_strlit("warning");
    reveal_strlit("error");
    reveal_strlit("stream_error");
    reveal_strlit("stream.error");
    assert("starting"@.last() != ')' && "queued"@.last() != ')' && "warning"@.last() != ')');
    assert("error"@.last() != ')' && "stream_error"@.last() != ')' && "stream.error"@.last()
        != ')');
}

/// A role is checked exactly where it is the one that was given to the agent; the first stands for
/// all roles.
pub proof fn the_chosen_role_is_checked(
    st: AppState,
    swarm: Option<&SwarmRuntime>,
    w: Seq<usize>,
    idx: usize,
    i: usize,
)
    requires
        idx < st.agents.agents@.len(),
        i < roster_lines::role_options().len(),
    ensures
        ({
            let id: Seq<char> = st.agents.agents@[idx as int].id@;
            let given = state::value_of(st.agents.swarm_role_by_agent_id@, id);
            let lowered: Seq<char> = text::lowered_text(text::trimmed(given->0@));
            let word: Seq<char> = if given is Some && lowered.len() > 0 {
                lowered
            } else {
                "all"@
            };
            let name: Seq<char> = roster_lines::role_options()[i as int];
            roster_lines::node_line(
                st,
                swarm,
                w,
                RosterBodyMeta {
                    agent_idx: Some(idx),
                    node: RosterBodyNode::Leaf { branch: RosterTreeBranch::Role, leaf_idx: i },
                },
            ) == roster_lines::choice_line(
                st,
                w,
                RosterTreeSelection { branch: RosterTreeBranch::Role, leaf_idx: i },
                clone_labels::role_hint(st.agents.role_names@, word) == clone_labels::role_hint(
                    st.agents.role_names@,
                    name,
                ),
                if i == 0 {
                    "All"@
                } else {
                    name
                },
            )
        }),
{
}

/// Only empty lines are taken off the end, and all of them are.
pub proof fn empty_lines_are_taken_off_the_end(lines: Seq<Seq<char>>)
    ensures
        ({
            let left: Seq<Seq<char>> = popup::without_blank_end(lines);
            &&& left.len() <= lines.len()
            &&& left == lines.take(left.len() as int)
            &&& left.len() > 0 ==> left.last().len() > 0
            &&& forall|i: int|
                left.len() <= i < lines.len() ==> (#[trigger] lines[i]).len() == 0
        }),
    decreases lines.len(),
{
    let left: Seq<Seq<char>> = popup::without_blank_end(lines);
    if lines.len() > 0 && lines.last().len() == 0 {
        let shorter: Seq<Seq<char>> = lines.drop_last();
        empty_lines_are_taken_off_the_end(shorter);
        assert(shorter.take(left.len() as int) =~= lines.take(left.len() as int));
        assert forall|i: int| left.len() <= i < lines.len() implies (
        #[trigger] lines[i]).len() == 0 by {
            if i < shorter.len() {
                assert(shorter[i] == lines[i]);
            }
        }
    } else {
        assert(lines.take(lines.len() as int) =~= lines);
    }
}

/// An error is told as it is laid out, and bare where it cannot be; a blank one is not told.
pub proof fn errors_are_told_bare(raw: Seq<char>, laid_out: Option<Seq<char>>)
    ensures
        text::trimmed(raw).len() == 0 ==> mcp::shown_error(raw, laid_out).len() == 0,
        text::trimmed(raw).len() > 0 && laid_out is Some ==> mcp::shown_error(raw, laid_out)
            == laid_out->0,
        text::trimmed(raw).len() > 0 && laid_out is None ==> mcp::shown_error(raw, laid_out)
            == text::trimmed(raw),
{
}

/// A change is searched by its title, and by its summary where it has none.
pub proof fn changes_are_searched_by_their_title(patch: PersistedPatchRecord)
    ensures
        patch.title@.len() > 0 ==> archive::patch_text(patch) == patch.title@,
        patch.title@.len() == 0 ==> archive::patch_text(patch) == patch.summary@,
{
}

/// The table of agents stands below the messages where an agent is not shown with one of them, and
/// in an open swarm where none is; else the transcript ends with the messages.
pub proof fn the_table_stands_below_the_messages(
    c: RowsCache,
    st: AppState,
    swarm: Option<&SwarmRuntime>,
    width: int,
)
    ensures
        ({
            let pulse: bool = stages::pulse_on(st.frame_count);
            let places: Seq<(int, int)> = cache::slots(c.slots@);
            let shown: Seq<Seq<char>> = cache::shown_from(st, places, 0);
            let messages = cache::merged(st, rows::rows(c.rows@), places, pulse, width, 0, 0);
            let table = breather::table_rows(st, swarm, pulse, width);
            let all = console::transcript(c, st, swarm, width);
            &&& thread::some_left(st, shown, None) ==> all == messages + table
            &&& turns::swarm_is_open(st) && shown.len() == 0 ==> all == messages + table
            &&& !thread::some_left(st, shown, None) && !turns::swarm_is_open(st) ==> all
                == messages
            &&& !thread::some_left(st, shown, None) && shown.len() > 0 ==> all == messages
        }),
{
}

/// The row of a report has the accent, that of a check the color of how it went; any other row is
/// light where it is selected. The selected row is drawn on the color of the selection.
pub proof fn cards_have_the_color_of_their_kind(
    idx: int,
    mark: char,
    rest: Seq<char>,
    theme: Theme,
)
    requires
        mark == ' ' || mark == '>',
    ensures
        ({
            let line: Seq<char> = seq![mark, '→', ' '] + rest;
            let row: Seq<Piece> = artifacts_styled::styled_line(idx, line, theme);
            let report: bool = text::starts(rest, "REPORT"@);
            let check: bool = text::starts(rest, "VERIFY"@) && !report;
            &&& row.len() == 1
            &&& row[0].text == line
            &&& mark == '>' ==> row[0].style.bg == Some(theme.selection_bg)
            &&& report ==> row[0].style.fg == Some(theme.accent)
            &&& check && text::includes(line, "FAIL"@) ==> row[0].style.fg == Some(theme.error)
            &&& check && !text::includes(line, "FAIL"@) && text::includes(line, "PASS"@)
                ==> row[0].style.fg == Some(theme.title_focused)
            &&& check && !text::includes(line, "FAIL"@) && !text::includes(line, "PASS"@)
                ==> row[0].style.fg == Some(theme.warning)
            &&& !report && !check && mark == '>' ==> row[0].style.fg == Some(theme.foreground)
        }),
{
    reveal_strlit(" Items");
    reveal_strlit(">");
    let line: Seq<char> = seq![mark, '→', ' '] + rest;
    assert(line[1] == '→' && " Items"@[1] == 'I');
    assert(text::tail(line, 3) =~= rest);
    assert(line.subrange(0, 1) =~= seq![mark]);
    assert(">"@ =~= seq!['>']);
    if mark == ' ' {
        assert(line.subrange(0, 1)[0] != ">"@[0]);
    }
}

/// A number in a json text goes as far as the characters of numbers do, and no further.
pub proof fn numbers_go_as_far_as_they_can(s: Seq<char>, i: int)
    requires
        0 <= i <= s.len(),
    ensures
        i <= json::number_end(s, i) <= s.len(),
        forall|k: int|
            i <= k < json::number_end(s, i) ==> text::digit(#[trigger] s[k]) || s[k] == '.'
                || s[k] == 'e' || s[k] == 'E' || s[k] == '+' || s[k] == '-',
        json::number_end(s, i) < s.len() ==> !text::digit(s[json::number_end(s, i)])
            && s[json::number_end(s, i)] != '.' && s[json::number_end(s, i)] != 'e'
            && s[json::number_end(s, i)] != 'E' && s[json::number_end(s, i)] != '+'
            && s[json::number_end(s, i)] != '-',
    decreases s.len() - i,
{
    if i < s.len() && json::in_number(s[i]) {
        numbers_go_as_far_as_they_can(s, i + 1);
    }
}

/// Where the input follows its caret, the line of the caret is among those that are seen; where it
/// was scrolled, it starts where it was scrolled to, as far as there are lines.
pub proof fn the_window_of_the_input_holds_the_caret(
    scroll: int,
    total: int,
    height: int,
    caret_line: int,
)
    requires
        1 <= height,
        0 <= caret_line < total,
        0 <= scroll,
    ensures
        ({
            let start: int = layout::window_start(scroll, total, height, caret_line);
            &&& 0 <= start < total
            &&& start > 0 ==> start + height <= total
            &&& scroll == layout::CHAT_INPUT_SCROLL_AUTO ==> start <= caret_line < start + height
            &&& scroll != layout::CHAT_INPUT_SCROLL_AUTO && (scroll + height <= total || scroll
                == 0) ==> start == scroll
        }),
{
}

/// The report of a swarm is told behind the summary where there is one; else the checks are.
pub proof fn reports_are_told_behind_the_summary(
    names: Seq<Entry<String>>,
    view: SwarmPersistenceView,
    width: int,
)
    ensures
        ({
            let all: Seq<Seq<char>> = swarm_details::swarm_in_full(names, view, width);
            let at: int = swarm_details::summary(view, width).len() + 1int;
            let told: Seq<Seq<char>> = if view.report_output is Some {
                swarm_details::report_details(view, width)
            } else {
                swarm_details::verify_details(view, width)
            };
            &&& at + told.len() <= all.len()
            &&& all[at - 1].len() == 0
            &&& all.subrange(at, at + told.len()) == told
        }),
{
    let all: Seq<Seq<char>> = swarm_details::swarm_in_full(names, view, width);
    let at: int = swarm_details::summary(view, width).len() + 1int;
    let told: Seq<Seq<char>> = if view.report_output is Some {
        swarm_details::report_details(view, width)
    } else {
        swarm_details::verify_details(view, width)
    };
    assert(all.subrange(at, at + told.len()) =~= told);
}

/// Every agent that is shown with a prompt counts as shown.
pub proof fn agents_on_prompts_are_shown(
    st: AppState,
    places: Seq<(int, int)>,
    from: int,
    k: int,
    i: int,
)
    requires
        0 <= from <= k < places.len(),
        0 <= i < turns::on_prompt(st, places[k].1).len(),
    ensures
        cache::shown_from(st, places, from).contains(turns::on_prompt(st, places[k].1)[i]),
    decreases k - from,
{
    let own: Seq<Seq<char>> = turns::on_prompt(st, places[from].1);
    let rest: Seq<Seq<char>> = cache::shown_from(st, places, from + 1);
    if k == from {
        assert((own + rest)[i] == own[i]);
    } else {
        agents_on_prompts_are_shown(st, places, from + 1, k, i);
        let id: Seq<char> = turns::on_prompt(st, places[k].1)[i];
        let j: int = rest.index_of(id);
        assert((own + rest)[own.len() + j] == id);
    }
}

} // verus!
