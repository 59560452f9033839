//! What the views as a whole tell.

use vstd::prelude::*;

use crate::agent_console_view::cache::RowsCache;
use crate::agent_console_view::console;
use crate::agent_console_view::console::ConsoleBody;
use crate::agent_console_view::highlights;
use crate::agent_console_view::layout;
use crate::agent_console_view::layout::ConsoleLayout;
use crate::agent_console_view::pane_thread;
use crate::agent_console_view::rows::Row;
use crate::agent_console_view::stages;
use crate::agent_console_view::words;
use crate::agent_ops_view::archive;
use crate::agent_ops_view::cards::Card;
use crate::agent_ops_view::cards::Reference;
use crate::agent_ops_view::history;
use crate::agent_ops_view::popup;
use crate::agent_ops_view::swarm_details;
use crate::agent_ops_view::tabs;
use crate::counting;
use crate::editor_view::buffer;
use crate::editor_view::buffer::Buffer;
use crate::editor_view::buffer::HighlightSnapshot;
use crate::editor_view::buffer::Mode;
use crate::editor_view::looks;
use crate::editor_view::pane;
use crate::editor_view::pane::EditorPaint;
use crate::fuzzy_search_popup;
use crate::fuzzy_search_popup::FuzzySearch;
use crate::geometry::Rect;
use crate::laws::archives;
use crate::laws::cards;
use crate::laws::counts;
use crate::laws::labels;
use crate::laws::swarms;
use crate::laws::texts;
use crate::state::AgentOpsTab;
use crate::state::AppState;
use crate::state::Entry;
use crate::state::SwarmPersistenceView;
use crate::state::SwarmRuntime;
use crate::style;
use crate::style::Color;
use crate::style::Piece;
use crate::style::Style;
use crate::style::Theme;
use crate::text;

verus! {

/// A card belongs to the agent and to the mission of what it refers to.
pub proof fn cards_belong_to_what_they_refer_to(st: AppState, swarm: SwarmRuntime, card: Card)
    ensures
        card.reference matches Reference::Message { idx } ==> idx < st.agents.messages@.len()
            ==> popup::card_agent(st, swarm, card) == text::opt_text(
            st.agents.messages@[idx as int].agent_id,
        ) && popup::card_mission(st, card) == text::opt_text(
            st.agents.messages@[idx as int].mission_id,
        ),
        card.reference matches Reference::Patch { idx } ==> idx < st.agents.patches@.len()
            ==> popup::card_agent(st, swarm, card) == Some(
            st.agents.patches@[idx as int].agent_id@,
        ) && popup::card_mission(st, card) == text::opt_text(
            st.agents.patches@[idx as int].mission_id,
        ),
        card.reference matches Reference::Evidence { idx } ==> idx < st.agents.evidence@.len()
            ==> popup::card_agent(st, swarm, card) == text::opt_text(
            st.agents.evidence@[idx as int].agent_id,
        ) && popup::card_mission(st, card) == text::opt_text(
            st.agents.evidence@[idx as int].mission_id,
        ),
        card.reference matches Reference::SwarmTask { mission_id, task_id } ==> popup::card_mission(
            st,
            card,
        ) == Some(mission_id),
        card.reference matches Reference::SwarmReport { mission_id } ==> popup::card_mission(
            st,
            card,
        ) == Some(mission_id),
{
}

/// A card of a swarm is answered by its owner where that is an agent.
pub proof fn cards_of_swarms_are_answered_by_their_owner(
    st: AppState,
    swarm: SwarmRuntime,
    card: Card,
    k: int,
)
    requires
        card.reference is SwarmTask || card.reference is SwarmReport,
        labels::bare(card.owner),
        0 <= k < st.agents.agents@.len(),
        st.agents.agents@[k].id@ == card.owner,
    ensures
        popup::card_agent(st, swarm, card) == Some(card.owner),
{
    texts::nothing_else_is_trimmed(card.owner);
    assert(st.agents.agents@[k].id@ == text::trimmed(card.owner));
}

/// The card of a message is the first one that refers to it.
pub proof fn popups_find_the_card_of_their_message(
    st: AppState,
    swarm: Option<&SwarmRuntime>,
    width: int,
    idx: usize,
)
    ensures
        match popup::card_of_popup(st, swarm, width, Reference::Message { idx }) {
            Some(k) => 0 <= k < popup::listed_cards(st, swarm, width).len() && popup::listed_cards(
                st,
                swarm,
                width,
            )[k].reference == (Reference::Message { idx }),
            None => forall|j: int|
                0 <= j < popup::listed_cards(st, swarm, width).len() ==> (
                #[trigger] popup::listed_cards(st, swarm, width)[j]).reference != (
                Reference::Message { idx }),
        },
{
    cards::cards_are_found_by_what_they_refer_to(
        popup::listed_cards(st, swarm, width),
        Reference::Message { idx },
    );
}

/// The first line of the console tells what is chosen, and it stands out where something is.
pub proof fn the_console_tells_what_is_chosen(
    label: Seq<char>,
    value: Seq<char>,
    lit: bool,
    ctx: (Option<u32>, Option<u32>, Option<u32>),
    theme: Theme,
)
    ensures
        ({
            let row: Seq<Piece> = console::context_pieces(label, value, lit, ctx, theme);
            &&& row.len() == 5
            &&& row[0].text == label
            &&& row[1].text == value
            &&& row[1].style.bold <==> lit
            &&& row[4].text == console::context_text(ctx.0, ctx.1, ctx.2)
        }),
{
}

/// The console tells the context of the chosen agent, and nothing where none is chosen.
pub proof fn the_console_tells_the_context_of_its_agent(st: AppState)
    ensures
        st.agents.context_agent is None ==> console::open_context(st) == (
            None::<u32>,
            None::<u32>,
            None::<u32>,
        ),
        st.agents.context_agent is Some && st.agents.context_mission is None
            ==> console::open_context(st) == (
            console::context_pct(st, st.agents.context_agent->0@, None),
            console::context_used(st, st.agents.context_agent->0@, None),
            stages::window(st, st.agents.context_agent->0@),
        ),
        st.agents.context_agent is Some && st.agents.context_mission is Some
            ==> console::open_context(st).0 == console::context_pct(
            st,
            st.agents.context_agent->0@,
            Some(st.agents.context_mission->0@),
        ),
{
}

/// A setting is told behind its label, and not at all where it is empty.
pub proof fn settings_are_told_behind_their_label(label: Seq<char>, value: Seq<char>, look: Style)
    ensures
        value.len() == 0 ==> console::setting_pieces(label, value, look).len() == 0,
        labels::bare(value) ==> console::setting_pieces(label, value, look).len() == 2
            && console::setting_pieces(label, value, look)[1].text == label + value + " "@,
{
    if value.len() == 0 {
        texts::nothing_else_is_trimmed(value);
        assert(text::trimmed(value).len() == 0);
    } else if labels::bare(value) {
        texts::nothing_else_is_trimmed(value);
        assert(text::trimmed(value) == value);
    }
}

/// The title of the input tells the template and the mission of swarms, and at the end how many
/// turns wait.
pub proof fn the_title_of_the_input_tells_its_settings(st: AppState, focused: bool, theme: Theme)
    requires
        labels::bare(st.agents.swarm_default_template@),
        labels::bare(st.agents.swarm_default_mission@),
    ensures
        ({
            let row: Seq<Piece> = console::box_title(st, focused, theme);
            &&& row.len() >= 5
            &&& row[0].text == "CHAT BOX"@
            &&& row[2].text == " t="@ + st.agents.swarm_default_template@ + " "@
            &&& row[4].text == " m="@ + st.agents.swarm_default_mission@ + " "@
            &&& row.len() > 5 <==> console::waiting(
                st,
                text::opt_text(st.agents.context_agent),
            ) > 0
        }),
{
    texts::nothing_else_is_trimmed(st.agents.swarm_default_template@);
    texts::nothing_else_is_trimmed(st.agents.swarm_default_mission@);
}

/// A console without the keyboard has no caret, and the transcript is drawn with no more rows than
/// there are and than fit.
pub proof fn only_the_console_with_the_keyboard_has_a_caret(
    r: ConsoleBody,
    c: RowsCache,
    st: AppState,
    swarm: Option<&SwarmRuntime>,
    focused: bool,
    theme: Theme,
)
    requires
        console::draws(r, c, st, swarm, focused, theme),
    ensures
        !focused ==> r.cursor is None,
        r.thread@.len() <= text::max_int(r.layout.thread_area.height as int, 1),
        r.scroll <= r.max_scroll,
{
    assert(style::rows(r.thread@).len() == r.thread@.len());
}

/// Without a selection the input shows its lines as they are, from the first one in its window.
pub proof fn the_input_shows_its_lines(
    l: ConsoleLayout,
    s: Seq<char>,
    cursor: int,
    bg: Color,
    i: int,
)
    requires
        0 <= i < l.input_inner_height,
        l.input_window_start + i < l.input_lines_all@.len(),
    ensures
        layout::shown_lines(l, s, cursor, None, bg).len() > i,
        layout::shown_lines(l, s, cursor, None, bg)[i] == style::raw_pieces(
            l.input_lines_all@[l.input_window_start + i]@,
        ),
{
}

/// Links, numbers and commands stand out in what agents say, and all other words are plain.
pub proof fn words_stand_out_as_what_they_are(s: Seq<char>, base: Style, theme: Theme)
    ensures
        words::link_or_path(s) ==> highlights::word_style(s, base, theme).fg == Some(theme.hl.link)
            && highlights::word_style(s, base, theme).underlined,
        !words::link_or_path(s) && words::numberish(s) ==> highlights::word_style(
            s,
            base,
            theme,
        ).fg == Some(theme.accent),
        !words::link_or_path(s) && !words::numberish(s) && words::command(s)
            ==> highlights::word_style(s, base, theme).fg == Some(theme.hl.operator),
        !words::link_or_path(s) && !words::numberish(s) && !words::command(s)
            ==> highlights::word_style(s, base, theme) == base,
{
}

proof fn run_reaches(s: Seq<char>, word: bool, i: int)
    requires
        0 <= i <= s.len(),
        forall|j: int| i <= j < s.len() ==> highlights::in_word(#[trigger] s[j]) == word,
    ensures
        highlights::run_end(s, word, i) == s.len(),
    decreases s.len() - i,
{
    if i < s.len() {
        run_reaches(s, word, i + 1);
    }
}

/// A word is highlighted as a whole.
pub proof fn words_are_highlighted_as_a_whole(s: Seq<char>, base: Style, theme: Theme)
    requires
        s.len() > 0,
        forall|j: int| 0 <= j < s.len() ==> highlights::in_word(#[trigger] s[j]),
    ensures
        highlights::word_pieces(s, base, theme, 0) == seq![
            style::piece(s, highlights::word_style(s, base, theme)),
        ],
{
    run_reaches(s, true, 1);
    assert(s.subrange(0, s.len() as int) =~= s);
    reveal_with_fuel(highlights::word_pieces, 2);
}

/// Panes show links as what agents said, and all other rows as they are.
pub proof fn panes_have_no_links(row: Row)
    ensures
        !(pane_thread::unlinked(row).kind is ArtifactLink),
        row.kind is ArtifactLink ==> pane_thread::unlinked(row).kind is Agent,
        !(row.kind is ArtifactLink) ==> pane_thread::unlinked(row) == row,
{
}

/// All terms of a search match exactly where each is one of the words.
pub proof fn terms_match_where_they_are_words(
    known: Seq<Seq<char>>,
    terms: Seq<Seq<char>>,
)
    ensures
        counting::counted(terms.len() as int, archive::is_matched(known, terms)) == terms.len()
            <==> forall|k: int| 0 <= k < terms.len() ==> known.contains(#[trigger] terms[k]),
{
    let n: int = terms.len() as int;
    let meets = archive::is_matched(known, terms);
    counts::a_count_tells_whether_there_is_any(n, meets);
    assert forall|k: int| 0 <= k < n implies (#[trigger] meets(k) <==> known.contains(
        terms[k],
    )) by {
        archives::terms_are_mentioned_where_they_are_words(known, terms[k]);
    }
    if counting::counted(n, meets) == n {
        assert forall|k: int| 0 <= k < n implies known.contains(#[trigger] terms[k]) by {
            assert(meets(k));
        }
    }
    if forall|k: int| 0 <= k < n ==> known.contains(#[trigger] terms[k]) {
        assert forall|k: int| 0 <= k < n implies #[trigger] meets(k) by {
            assert(known.contains(terms[k]));
        }
    }
}

/// The run that is told above the artifacts is the one that is selected, and the latest one where
/// none is.
pub proof fn the_selected_run_is_told(st: AppState)
    ensures
        st.agents.artifacts_selected_saved_run_path is None ==> history::summary_label(st)
            == "current / latest saved run"@,
        history::selected_archived(st) is Some ==> history::summary_label(st) == history::entries(
            st,
        )[history::selected_archived(st)->0].label,
{
}

/// An error in the colors of the lines that are shown is told, and none where there is none.
pub proof fn errors_in_the_colors_are_told(
    b: Buffer,
    snap: Option<HighlightSnapshot>,
    n: int,
)
    requires
        0 <= n,
    ensures
        pane::last_error(b, snap, n) is None <==> forall|i: int|
            0 <= i < n ==> #[trigger] buffer::error_of(b, snap, b.viewport.offset_line + i) is None,
    decreases n,
{
    if n > 0 {
        errors_in_the_colors_are_told(b, snap, n - 1);
        let last: int = n - 1;
        assert(b.viewport.offset_line + last == b.viewport.offset_line + n - 1);
        if pane::last_error(b, snap, n) is None {
            assert forall|i: int| 0 <= i < n implies #[trigger] buffer::error_of(
                b,
                snap,
                b.viewport.offset_line + i,
            ) is None by {}
        } else {
            if forall|i: int|
                0 <= i < n ==> #[trigger] buffer::error_of(
                    b,
                    snap,
                    b.viewport.offset_line + i,
                ) is None {
                assert(buffer::error_of(b, snap, b.viewport.offset_line + last) is None);
            }
        }
    }
}

/// Only an editor with the keyboard has a caret, and what is drawn are as many lines as the pane has
/// rows.
pub proof fn only_the_editor_with_the_keyboard_has_a_caret(
    r: EditorPaint,
    b: Buffer,
    snap: Option<HighlightSnapshot>,
    focused: bool,
    title: Seq<char>,
    theme: Theme,
    tab_width: usize,
    mode: Mode,
    area: Rect,
)
    requires
        pane::draws(r, b, snap, focused, title, theme, tab_width, true, mode, None, area),
    ensures
        focused ==> r.cursor == Some(pane::caret_cell(b, area, tab_width as int)),
        !focused ==> r.cursor is None,
        r.lines@.len() == text::max_int(b.viewport.height as int, 1),
        r.title@.len() == 1 && r.title@[0].text == title,
{
    assert(style::rows(r.lines@).len() == r.lines@.len());
}

/// The line of the caret is not underlined while something is being selected.
pub proof fn selecting_hides_the_line_of_the_caret(
    b: Buffer,
    snap: Option<HighlightSnapshot>,
    focused: bool,
    mode: Mode,
    theme: Theme,
    tab_width: usize,
)
    ensures
        pane::pane_look(b, snap, focused, mode, theme, tab_width, None).selecting <==> mode
            is Visual && b.selection is Some,
        pane::pane_look(b, snap, focused, mode, theme, tab_width, None).bg == looks::text_bg(
            focused,
            theme,
        ),
{
}

/// The search tells what it looks for, and whether in names or in contents.
pub proof fn the_search_tells_what_it_looks_for(f: FuzzySearch, theme: Theme)
    ensures
        fuzzy_search_popup::header(f, theme).len() == 4,
        f.mode is Files ==> fuzzy_search_popup::header(f, theme)[0].text == "[FILES]"@,
        f.mode is Content ==> fuzzy_search_popup::header(f, theme)[0].text == "[CONTENT]"@,
        fuzzy_search_popup::header(f, theme)[2].text == f.query@,
        fuzzy_search_popup::header(f, theme)[3].style.fg == Some(
            if f.indexing || f.searching {
                theme.warning
            } else {
                theme.foreground
            },
        ),
{
}

/// The footer of a tab tells the keys for all tabs first, and then those of the tab.
pub proof fn footers_tell_the_keys_of_their_tab(theme: Theme, tab: AgentOpsTab)
    ensures
        tabs::footer_pieces(tab, theme).len() >= 9,
        tabs::footer_pieces(tab, theme)[1].text == "Tab"@,
        tabs::footer_pieces(tab, theme)[4].text == "j/k"@,
        tab is Missions ==> tabs::footer_pieces(tab, theme)[7].text == "n"@,
        tab is Mcp ==> tabs::footer_pieces(tab, theme)[7].text == "r"@,
        tab is Evidence || tab is Alerts || tab is Scratchpad ==> tabs::footer_pieces(
            tab,
            theme,
        )[7].text == "Enter"@,
        tab is Dag || tab is Diagnostics || tab is Patch ==> tabs::footer_pieces(
            tab,
            theme,
        )[7].text == "j/k"@,
{
}

/// All that is told of a swarm starts with its summary and ends with its tasks, each of which is
/// told.
pub proof fn swarms_are_told_in_full(
    names: Seq<Entry<String>>,
    view: SwarmPersistenceView,
    width: int,
    k: int,
) -> (at: int)
    requires
        0 <= k < view.tasks@.len(),
    ensures
        ({
            let all: Seq<Seq<char>> = swarm_details::swarm_in_full(names, view, width);
            let own: Seq<Seq<char>> = swarm_details::task_details(
                names,
                view,
                view.tasks@[k],
                width,
            );
            let start: Seq<Seq<char>> = swarm_details::summary(view, width);
            &&& all.take(start.len() as int) == start
            &&& 0 <= at
            &&& at + own.len() <= all.len()
            &&& all.subrange(at, at + own.len()) == own
        }),
{
    let all: Seq<Seq<char>> = swarm_details::swarm_in_full(names, view, width);
    let own: Seq<Seq<char>> = swarm_details::task_details(names, view, view.tasks@[k], width);
    let start: Seq<Seq<char>> = swarm_details::summary(view, width);
    let n: int = view.tasks@.len() as int;
    let tasks: Seq<Seq<char>> = swarm_details::tasks_in_full(names, view, width, n);
    let i: int = swarms::every_task_is_told(names, view, width, n, k);
    let at: int = all.len() - tasks.len() + i;
    assert(all.take(start.len() as int) =~= start);
    assert(all.subrange(at, at + own.len()) =~= tasks.subrange(i, i + own.len()));
    at
}

} // verus!
