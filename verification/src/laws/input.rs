//! Where the characters and the caret of the input stand, and who is listed as waiting.

use vstd::prelude::*;

use crate::agent_console_view::breather;
use crate::agent_console_view::cache;
use crate::agent_console_view::cache::RowsCache;
use crate::agent_console_view::chat_input;
use crate::agent_console_view::chat_input::Caret;
use crate::agent_console_view::layout;
use crate::agent_console_view::layout::ConsoleLayout;
use crate::agent_console_view::layout::Marked;
use crate::agent_console_view::messages;
use crate::agent_console_view::pane_table;
use crate::agent_console_view::pane_thread;
use crate::agent_console_view::rows::Row;
use crate::agent_console_view::turns;
use crate::columns;
use crate::fit;
use crate::geometry;
use crate::geometry::Rect;
use crate::state::ActiveTurn;
use crate::state::AgentLane;
use crate::state::AppState;
use crate::state::SwarmProgress;
use crate::state::SwarmRuntime;
use crate::style;
use crate::style::Color;
use crate::style::Piece;
use crate::text;

verus! {

/// A character goes behind the others on its line as long as there is room, else to the start of the
/// next line; a line end always leads to the next line.
pub proof fn characters_go_on_until_the_line_is_full(s: Seq<char>, c: char, width: int)
    requires
        width >= 1,
    ensures
        ({
            let n: int = s.len() as int;
            let at: Caret = chat_input::caret_after(s, width, n);
            let then: Caret = chat_input::caret_after(s.push(c), width, n + 1);
            &&& c == '\n' || c == '\r' ==> then.line == at.line + 1 && then.cell == 0
            &&& c != '\n' && c != '\r' && c != '\t' && columns::cells(c) == 1 && 0 <= at.cell
                < width ==> then.line == at.line && then.cell == at.cell + 1
            &&& c != '\n' && c != '\r' && c != '\t' && columns::cells(c) == 1 && at.cell == width
                ==> then.line == at.line + 1 && then.cell == 1
        }),
{
    caret_looks_back(s, c, width, s.len() as int);
}

proof fn caret_looks_back(s: Seq<char>, c: char, width: int, n: int)
    requires
        0 <= n <= s.len(),
    ensures
        chat_input::caret_after(s.push(c), width, n) == chat_input::caret_after(s, width, n),
    decreases n,
{
    if n > 0 {
        caret_looks_back(s, c, width, n - 1);
        assert(s.push(c)[n - 1] == s[n - 1]);
    }
}

/// What is selected reaches from the caret to the anchor, whichever of them stands first; nothing is
/// selected where both are at one place.
pub proof fn the_selection_reaches_from_caret_to_anchor(len: int, caret: usize, anchor: usize)
    requires
        caret <= len,
        anchor <= len,
    ensures
        caret == anchor ==> layout::selection(len, caret as int, Some(anchor)) is None,
        caret < anchor ==> layout::selection(len, caret as int, Some(anchor)) == Some(
            (caret as int, anchor as int),
        ),
        anchor < caret ==> layout::selection(len, caret as int, Some(anchor)) == Some(
            (anchor as int, caret as int),
        ),
        layout::selection(len, caret as int, None) is None,
{
}

/// What is marked of a line has the color of the selection, and nothing else has.
pub proof fn marked_characters_have_the_color_of_the_selection(
    s: Seq<char>,
    from: int,
    to: int,
    bg: Color,
)
    requires
        0 < from < to < s.len(),
    ensures
        ({
            let row: Seq<Piece> = layout::marked(s, from, to, bg);
            &&& row.len() == 3
            &&& row[0].text == s.take(from) && row[0].style.bg is None
            &&& row[1].text == s.subrange(from, to) && row[1].style.bg == Some(bg)
            &&& row[2].text == s.skip(to) && row[2].style.bg is None
        }),
{
    let rest: Seq<char> = text::tail(s, from);
    assert(text::head(s, from) =~= s.take(from));
    assert(text::head(rest, to - from) =~= s.subrange(from, to));
    assert(text::tail(rest, to - from) =~= s.skip(to));
}

/// Lines between the first and the last one of the selection are marked from end to end, the first
/// one from where the selection starts, the last one up to where it ends, and others not at all.
pub proof fn lines_are_marked_as_far_as_the_selection_reaches(
    s: Seq<char>,
    line: int,
    m: Marked,
    bg: Color,
)
    requires
        0 <= m.start_col <= s.len(),
        0 <= m.end_col <= s.len(),
    ensures
        line < m.start_line || line > m.end_line ==> layout::input_line(s, line, m, bg)
            == style::raw_pieces(s),
        m.start_line < line < m.end_line ==> layout::input_line(s, line, m, bg) == layout::marked(
            s,
            0,
            s.len() as int,
            bg,
        ),
        line == m.start_line && m.start_line < m.end_line ==> layout::input_line(s, line, m, bg)
            == layout::marked(s, m.start_col, s.len() as int, bg),
        line == m.end_line && m.start_line < m.end_line ==> layout::input_line(s, line, m, bg)
            == layout::marked(s, 0, m.end_col, bg),
        line == m.start_line && line == m.end_line ==> layout::input_line(s, line, m, bg)
            == layout::marked(s, m.start_col, m.end_col, bg),
{
}

/// The caret is drawn at its column and line, counted from the first line that is shown; where its
/// line is not shown, it is not drawn.
pub proof fn the_caret_is_drawn_in_the_window(l: ConsoleLayout)
    requires
        l.cursor_col_all < l.input_area.width,
        l.input_area.x + l.input_area.width <= u16::MAX,
        l.input_area.y + l.input_inner_height <= u16::MAX,
    ensures
        l.input_window_start <= l.cursor_line_all < l.input_window_start + l.input_inner_height
            ==> layout::caret_cell(l, true) is Some && layout::caret_cell(l, true)->0.x
            == l.input_area.x + l.cursor_col_all && layout::caret_cell(l, true)->0.y
            == l.input_area.y + (l.cursor_line_all - l.input_window_start),
        l.cursor_line_all < l.input_window_start ==> layout::caret_cell(l, true) is None,
        l.cursor_line_all >= l.input_window_start + l.input_inner_height ==> layout::caret_cell(
            l,
            true,
        ) is None,
        layout::caret_cell(l, false) is None,
{
}

/// Pointing at the cell of a character in the input finds that character again.
pub proof fn pointing_finds_the_character(l: ConsoleLayout, input: Seq<char>, n: int, x: u16, y: u16)
    requires
        0 <= n <= input.len(),
        l.input_area.width >= 1,
        geometry::within(x, y, l.input_area),
        ({
            let at: Caret = chat_input::caret_after(input, l.input_area.width as int, n);
            &&& x == l.input_area.x + at.cell
            &&& y == l.input_area.y + (at.line - l.input_window_start)
            &&& 0 <= at.line < l.input_lines_all@.len()
            &&& at.cell <= columns::text_columns(l.input_lines_all@[at.line]@)
        }),
    ensures
        layout::char_at_point(l, input, x, y, false) == Some(n),
{
    chat_input::caret_place_maps_back(input, l.input_area.width as int, n);
}

/// Rows that were built for one view of the console are used for no other: they fit the same width,
/// the same number of messages, the same mission and the same agent.
pub proof fn rows_are_used_for_their_own_view(
    c: RowsCache,
    st: AppState,
    width: int,
    other: AppState,
    wide: int,
)
    requires
        cache::fits(c, st, width),
        cache::fits(c, other, wide),
    ensures
        width == wide,
        st.agents.messages@.len() == other.agents.messages@.len(),
        text::opt_text(st.agents.context_mission) == text::opt_text(other.agents.context_mission),
        st.agents.context_mission is None ==> text::opt_text(st.agents.context_agent)
            == text::opt_text(other.agents.context_agent),
{
}

/// Every agent of the table has two rows in its place: one with its name and its times, and one with
/// what it does.
pub proof fn every_agent_has_its_two_rows(
    st: AppState,
    ids: Seq<Seq<char>>,
    width: int,
    n: int,
    k: int,
)
    requires
        0 <= k < n <= ids.len(),
        width >= 24,
    ensures
        breather::table_agents(st, ids, width, n).len() == 2 * n,
        ({
            let own: Seq<Row> = breather::agent_rows(
                st,
                ids[k],
                breather::table_stage(st, ids[k]),
                breather::no_times(breather::table_stage(st, ids[k])),
                width,
            );
            &&& own.len() == 2
            &&& breather::table_agents(st, ids, width, n)[place_of_agent(k)] == own[0]
            &&& breather::table_agents(st, ids, width, n)[place_of_agent(k) + 1] == own[1]
        }),
    decreases n,
{
    if n > 1 {
        if k < n - 1 {
            every_agent_has_its_two_rows(st, ids, width, n - 1, k);
        } else {
            every_agent_has_its_two_rows(st, ids, width, n - 1, 0);
        }
    } else {
        assert(breather::table_agents(st, ids, width, 0).len() == 0);
    }
}

/// The place of the first row of an agent.
pub open spec fn place_of_agent(k: int) -> int {
    2 * k
}

/// The first row of an agent tells its name, how long its turn takes, when it last gave a sign and
/// when it last said something; the second row tells what it does.
pub proof fn rows_of_agents_tell_their_times(
    st: AppState,
    id: Seq<char>,
    raw: Seq<char>,
    width: int,
    t: ActiveTurn,
)
    requires
        turns::turn(st, id) == Some(t),
        t.heartbeat_secs is Some,
        t.output_secs is Some,
    ensures
        ({
            let rows: Seq<Row> = breather::agent_rows(st, id, raw, false, width);
            &&& rows[0].text == fit::padded(
                fit::left(messages::named(st, id), breather::name_width(width)) + " "@ + fit::right(
                    breather::opt_span(t.elapsed_secs),
                    6,
                ) + " "@ + fit::right(text::decimal(t.heartbeat_secs->0 as nat) + "s"@, 4) + " "@
                    + fit::right(text::decimal(t.output_secs->0 as nat) + "s"@, 4),
                width,
            )
            &&& turns::lane(st, id) is None ==> rows[1].text == fit::padded(
                fit::left("↳ "@ + raw, breather::name_width(width)) + " "@ + fit::right(""@, 6)
                    + " "@ + fit::right(""@, 4) + " "@ + fit::right(""@, 4),
                width,
            )
        }),
{
}

/// What stands above the table: a swarm that is checked or summed up says so, others work or wait.
pub proof fn headlines_say_what_goes_on(st: AppState, swarm: Option<&SwarmRuntime>)
    ensures
        ({
            let ids: Seq<Seq<char>> = breather::ordered(st);
            let works: bool = breather::any_active(st, ids);
            let waits: bool = breather::any_queued(st, ids);
            let said: Seq<char> = breather::headline(st, swarm);
            &&& turns::open_swarm(st) is None && works ==> said == "Working ..."@
            &&& turns::open_swarm(st) is None && !works && waits ==> said == "Queued ..."@
            &&& turns::open_swarm(st) is Some && (works || waits) && breather::swarm_stage(
                swarm,
                st.agents.context_mission->0@,
            ) == Some("VERIFY"@) ==> said == "Verifying ..."@
            &&& turns::open_swarm(st) is Some && works && swarm is None ==> said == "Working ..."@
            &&& turns::open_swarm(st) is Some && !works && waits && swarm is None ==> said
                == "Queued ..."@
            &&& turns::open_swarm(st) is Some && !works && !waits && breather::all_spoke(
                st,
                breather::assigned(st),
                st.agents.context_mission->0@,
            ) ==> said == "Done"@
            &&& turns::open_swarm(st) is Some && !works && !waits && !breather::all_spoke(
                st,
                breather::assigned(st),
                st.agents.context_mission->0@,
            ) ==> said == "Waiting ..."@
        }),
{
}

/// Agents that are still pending when their swarm is complete were skipped; nothing else becomes of
/// a stage.
pub proof fn pending_agents_of_complete_swarms_were_skipped(
    st: AppState,
    swarm: Option<&SwarmRuntime>,
    id: Seq<char>,
    p: SwarmProgress,
)
    requires
        pane_table::progress(st, swarm) == Some(p),
        turns::turn(st, id) is None,
    ensures
        p.complete && breather::table_stage(st, id) == "swarm_pending"@ ==> pane_table::stage(
            st,
            swarm,
            id,
        ) == "swarm_skipped"@,
        !p.complete || breather::table_stage(st, id) != "swarm_pending"@ ==> pane_table::stage(
            st,
            swarm,
            id,
        ) == breather::table_stage(st, id),
{
}

/// In a pane of its own, an agent counts for its mission where it works on it or waits for it, and
/// outside of missions only for itself.
pub proof fn panes_count_their_own_agents(
    st: AppState,
    lane: AgentLane,
    mission: Seq<char>,
    agent: Seq<char>,
)
    ensures
        pane_thread::in_scope(st, lane, true, Some(mission), None) ==> (lane.current_mission
            is Some && lane.current_mission->0@ == mission) || turns::queued_in(
            st,
            lane.id@,
            mission,
        ),
        lane.current_mission is Some && lane.current_mission->0@ == mission
            ==> pane_thread::in_scope(st, lane, true, Some(mission), None),
        pane_thread::in_scope(st, lane, true, None, Some(agent)) <==> lane.id@ == agent,
        pane_thread::in_scope(st, lane, false, Some(mission), Some(agent)),
{
}

/// Helpers are shadows: those of the chosen agent, or all of them where none is chosen.
pub proof fn helpers_are_shadows_of_the_chosen_agent(st: AppState, lane: AgentLane)
    ensures
        pane_table::helper_counts(st, lane) ==> lane.shadow,
        st.agents.context_agent is Some && pane_table::helper_counts(st, lane)
            ==> lane.shadow_base is Some && lane.shadow_base->0@ == st.agents.context_agent->0@,
        st.agents.context_agent is None && lane.shadow ==> pane_table::helper_counts(st, lane),
{
}

/// The transcript fills what the input leaves of the console, below the first line.
pub proof fn the_transcript_takes_what_the_input_leaves(
    l: ConsoleLayout,
    inner: Rect,
    input: Seq<char>,
    cursor: int,
    scroll: int,
)
    requires
        layout::lays_out(l, inner, input, cursor, scroll),
        layout::settled(inner),
        1 + layout::input_height(inner, input) <= inner.height,
        0 <= layout::input_height(inner, input),
    ensures
        l.thread_area.y == inner.y + 1,
        l.thread_area.y + l.thread_area.height == l.input_chunk.y,
        l.input_chunk.y + l.input_chunk.height == inner.y + inner.height,
        l.thread_area.width == inner.width,
        l.input_chunk.width == inner.width,
{
}

} // verus!
