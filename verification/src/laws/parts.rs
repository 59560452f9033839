//! What the smaller parts of the widgets do.

use vstd::prelude::*;

use crate::agent_console_view::footer;
use crate::agent_console_view::stages;
use crate::agent_console_view::turns;
use crate::agent_console_view::words;
use crate::agent_ops_view::history;
use crate::agent_ops_view::popup;
use crate::agent_ops_view::roster_lines;
use crate::artifacts_history_popup;
use crate::artifacts_popup::code::SyntaxTables;
use crate::artifacts_popup::content;
use crate::artifacts_popup::content::OpenedEntry;
use crate::artifacts_popup::input;
use crate::artifacts_popup::input::PopupView;
use crate::assumptions_view;
use crate::assumptions_view::AssumptionTarget;
use crate::bottom_bar;
use crate::bottom_bar::RuntimeAcceleratorStats;
use crate::clone_labels;
use crate::definition_popup;
use crate::definition_popup::Analysis;
use crate::file_tree_view;
use crate::file_tree_view::FileTreeKind;
use crate::frames;
use crate::geometry;
use crate::geometry::Rect;
use crate::laws::labels;
use crate::laws::texts;
use crate::state;
use crate::state::AgentLane;
use crate::state::AppState;
use crate::state::Entry;
use crate::state::SwarmRuntime;
use crate::style;
use crate::style::Color;
use crate::style::Piece;
use crate::style::Theme;
use crate::text;

verus! {

/// An agent and its copies in chats count as one, and no other agent does.
pub proof fn copies_count_as_their_agent(st: AppState, id: Seq<char>, chosen: Seq<char>)
    ensures
        turns::is_or_copies(st, chosen, chosen),
        st.agents.chat_clones.base(id) == Some(chosen) ==> turns::is_or_copies(st, id, chosen),
        st.agents.chat_clones.base(id) is None && id != chosen ==> !turns::is_or_copies(
            st,
            id,
            chosen,
        ),
{
}

/// The size of the context of an agent is what its own backend says; the first backend is asked
/// first.
pub proof fn the_context_is_as_large_as_its_backend_says(st: AppState, id: Seq<char>)
    ensures
        state::value_of(st.agents.codex_effective_context_window_tokens@, id) is Some
            ==> stages::window(st, id) == state::value_of(
            st.agents.codex_effective_context_window_tokens@,
            id,
        ),
        state::value_of(st.agents.codex_effective_context_window_tokens@, id) is None
            ==> stages::window(st, id) == state::value_of(
            st.agents.claude_effective_context_window_tokens@,
            id,
        ),
{
}

/// A stage is told raw while debugging; else what is said of the tokens is told of agents that count
/// them, and every other stage in words.
pub proof fn stages_are_told_in_words(st: AppState, agent: AgentLane, stage: Seq<char>)
    ensures
        st.debug ==> stages::stage_label(st, agent, stage) == stage,
        !st.debug && stage != "token_count"@ && !agent.claude() ==> stages::stage_label(
            st,
            agent,
            stage,
        ) == stages::stage_words(stage),
        !st.debug && stage == "token_count"@ && !agent.claude() && !agent.codex()
            ==> stages::stage_label(st, agent, stage) == "Updating token usage"@,
{
}

/// A sentence starts with a capital and is else as it was.
pub proof fn sentences_start_with_a_capital(s: Seq<char>)
    requires
        labels::bare(s),
        (s[0] as u32) < 0x80,
    ensures
        stages::sentence(s).len() == s.len(),
        stages::sentence(s).skip(1) == s.skip(1),
        'a' <= s[0] <= 'z' ==> stages::sentence(s)[0] as int == s[0] as int - 32,
        !('a' <= s[0] <= 'z') ==> stages::sentence(s)[0] == s[0],
{
    texts::nothing_else_is_trimmed(s);
    assert(text::tail(s, 1) =~= s.skip(1));
    assert(stages::sentence(s).skip(1) =~= s.skip(1));
}

proof fn beats_are_bars(k: int)
    requires
        0 <= k < 9,
    ensures
        words::ecg(stages::beats()[k]),
{
    reveal_strlit("▁▂▁▃▂▁");
    reveal_strlit("▁▃▅▂▁▂");
    reveal_strlit("▁▄▇▃▁▂");
    reveal_strlit("▁▅█▄▂▁");
    reveal_strlit("▁▄▆▃▁▂");
    reveal_strlit("▁▃▅▂▁▃");
    reveal_strlit("▁▂▄▂▁▂");
    reveal_strlit("▁▃▆▃▁▂");
    reveal_strlit("▁▂▅▂▁▂");
}

/// The heart of an agent at work beats in six bars; it is flat where nobody works.
pub proof fn hearts_beat_in_six_bars(
    frame_count: u64,
    agent: Option<Seq<char>>,
    pulse_on: bool,
    working: bool,
)
    ensures
        working ==> words::ecg(stages::beat(frame_count, agent, pulse_on, working)),
        !working ==> stages::beat(frame_count, agent, pulse_on, working) == "▁▁▁▁▁▁"@,
{
    if working {
        let s: u64 = stages::seed(
            match agent {
                Some(a) => a,
                None => "agent"@,
            },
        );
        let turned: u64 = (s << 7u64) | (s >> 57u64);
        let x: u64 = stages::shaken(((frame_count / 3) as u64).wrapping_add(turned), pulse_on);
        beats_are_bars((x as usize) as int % 9);
    }
}

/// A bundle of gates is called by its name, without what stands in brackets behind it.
pub proof fn bundles_are_called_by_their_name(name: Seq<char>, rest: Seq<char>)
    requires
        labels::bare(name),
        labels::lacks(name, ' '),
        labels::bare(rest),
    ensures
        footer::bundle(name + seq![' ', '('] + rest) == name,
        footer::bundle(name) == name,
{
    reveal_strlit(" (");
    let s: Seq<char> = name + seq![' ', '('] + rest;
    assert(s[0] == name[0] && s[s.len() - 1] == rest[rest.len() - 1]);
    texts::nothing_else_is_trimmed(s);
    texts::nothing_else_is_trimmed(name);
    texts::texts_part_at_their_mark(name, " ("@, rest);
    assert(name + " ("@ + rest =~= s);
    texts::texts_without_the_mark_are_whole(name, " ("@);
}

/// Names of files keep letters, digits, dashes and underscores, and have an underscore for everything
/// else.
pub proof fn names_of_files_are_plain(s: Seq<char>, i: int)
    requires
        0 <= i < s.len(),
    ensures
        history::sanitized(s).len() == s.len(),
        text::alnum(s[i]) || s[i] == '-' || s[i] == '_' ==> history::sanitized(s)[i] == s[i],
        !text::alnum(s[i]) && s[i] != '-' && s[i] != '_' ==> history::sanitized(s)[i] == '_',
{
}

/// A saved run is told by when it was saved, when it was last changed and what it holds, as far as
/// each is known.
pub proof fn saved_runs_are_told_as_far_as_known(
    absolute: Seq<char>,
    updated: Seq<char>,
    counts: Seq<char>,
)
    requires
        labels::bare(updated),
        updated != "--"@,
    ensures
        history::detail_label(Some(absolute), updated, counts) == absolute + " · run "@ + updated
            + " · "@ + counts,
        history::detail_label(Some(absolute), "--"@, counts) == absolute + " · "@ + counts,
        history::detail_label(None, updated, counts) == updated + " · "@ + counts,
        history::detail_label(None, "--"@, counts) == counts,
{
    reveal_strlit("--");
    texts::nothing_else_is_trimmed(updated);
    texts::nothing_else_is_trimmed("--"@);
}

/// A click hits a label exactly where it falls on one of its characters.
pub proof fn clicks_hit_their_label(before: Seq<char>, label: Seq<char>, after: Seq<char>, col: int)
    requires
        label.len() > 0,
        labels::lacks(before, label[0]),
    ensures
        roster_lines::on_label(before + label + after, label, col) <==> before.len() <= col
            < before.len() + label.len(),
{
    let line: Seq<char> = before + label + after;
    texts::texts_part_at_their_mark(before, label, after);
    texts::texts_are_found_where_they_stand_first(line, label);
    let k: int = text::find(line, label)->0;
    assert(text::head(line, k).len() == k);
    assert(k == before.len());
}

/// A role is called by its own name where it has one, and else by what it was given, in small
/// letters.
pub proof fn roles_are_called_by_their_name(names: Seq<Entry<String>>, raw: Seq<char>)
    requires
        labels::bare(raw),
        text::lowered_text(raw) != text::lowered_text("all"@),
    ensures
        state::value_of(names, raw) is Some ==> clone_labels::role_hint(names, raw)
            == state::value_of(names, raw)->0@,
        state::value_of(names, raw) is None ==> clone_labels::role_hint(names, raw)
            == text::lowered_text(raw),
{
    texts::nothing_else_is_trimmed(raw);
}

/// A share of a length is that many hundredths of it, and never more than the whole.
pub proof fn shares_are_hundredths(n: u16, pct: u16)
    requires
        pct <= 100,
        n * pct <= u16::MAX,
    ensures
        geometry::share(n, pct) * 100 <= n * pct,
        n * pct < (geometry::share(n, pct) + 1) * 100,
        geometry::share(n, pct) <= n,
{
    assert(n * pct <= n * 100) by (nonlinear_arith)
        requires
            pct <= 100,
            n >= 0,
    ;
}

/// A length is kept between its bounds, and is not changed where it lies between them.
pub proof fn lengths_are_kept_between_their_bounds(n: u16, low: u16, high: u16)
    requires
        low <= high,
    ensures
        low <= geometry::between(n, low, high) <= high,
        low <= n <= high ==> geometry::between(n, low, high) == n,
        geometry::smaller(n, low) <= n && geometry::smaller(n, low) <= low,
        geometry::smaller(n, low) == n || geometry::smaller(n, low) == low,
{
}

/// A window on rows shows as many as fit, from the first one that is to be seen.
pub proof fn windows_show_rows_in_their_order(
    rows: Seq<Seq<Piece>>,
    from: int,
    height: int,
    i: int,
)
    requires
        0 <= from,
        0 <= i < height,
        from + i < rows.len(),
    ensures
        i < frames::window(rows, from, height).len() <= height,
        frames::window(rows, from, height)[i] == rows[from + i],
{
}

/// A color that is dimmed by nothing stays, one that is dimmed wholly is the background, and colors
/// without parts stay as they are.
pub proof fn dimming_leads_to_the_background(color: Color, background: Color)
    ensures
        style::dimmed(color, background, 0) == color,
        color is Rgb && background is Rgb ==> style::dimmed(color, background, 100) == background,
        !(color is Rgb) ==> style::dimmed(color, background, 50) == color,
        !(background is Rgb) ==> style::dimmed(color, background, 50) == color,
{
}

/// Kinds of artifacts are told by their names, filled up to one width.
pub proof fn kinds_are_told_by_their_names(kind: Seq<char>, theme: Theme)
    requires
        kind == "PROMPT"@ || kind == "REPLY"@ || kind == "SYNTH"@ || kind == "PLAN"@ || kind
            == "PATCH"@ || kind == "EVIDENCE"@,
    ensures
        artifacts_history_popup::kind_look(kind, theme).0 == kind + text::fill(
            ' ',
            (8 - kind.len()) as nat,
        ),
{
    reveal_strlit("PROMPT");
    reveal_strlit("REPLY");
    reveal_strlit("SYNTH");
    reveal_strlit("PLAN");
    reveal_strlit("PATCH");
    reveal_strlit("EVIDENCE");
    reveal_strlit("PROMPT  ");
    reveal_strlit("REPLY   ");
    reveal_strlit("SYNTH   ");
    reveal_strlit("PLAN    ");
    reveal_strlit("PATCH   ");
    let told: Seq<char> = artifacts_history_popup::kind_look(kind, theme).0;
    assert("PROMPT"@[1] == 'R' && "REPLY"@[1] == 'E' && "SYNTH"@[1] == 'Y' && "PLAN"@[1] == 'L'
        && "PATCH"@[1] == 'A' && "EVIDENCE"@[1] == 'V');
    assert(told =~= kind + text::fill(' ', (8 - kind.len()) as nat));
}

/// An assumption about a region is told with its first and its last line.
pub proof fn assumptions_on_regions_tell_their_lines(t: AssumptionTarget)
    ensures
        t is Global ==> assumptions_view::target_text(t) == "Global"@,
        t matches AssumptionTarget::Region { path, start_line, end_line } ==> text::ends(
            assumptions_view::target_text(t),
            "#"@ + text::decimal(start_line as nat) + "-"@ + text::decimal(end_line as nat),
        ),
        t is File ==> text::starts(assumptions_view::target_text(t), "file:"@),
{
    match t {
        AssumptionTarget::Region { path, start_line, end_line } => {
            let s: Seq<char> = assumptions_view::target_text(t);
            let end: Seq<char> = "#"@ + text::decimal(start_line as nat) + "-"@ + text::decimal(
                end_line as nat,
            );
            assert(s.subrange(s.len() - end.len(), s.len() as int) =~= end);
        },
        AssumptionTarget::File { path } => {
            let s: Seq<char> = assumptions_view::target_text(t);
            assert(s.subrange(0, "file:"@.len() as int) =~= "file:"@);
        },
        AssumptionTarget::Global => {},
    }
}

/// What was done on the graphics processor is counted first, and where nothing was counted nothing
/// is told.
pub proof fn the_accelerator_tells_its_counts(r: RuntimeAcceleratorStats)
    requires
        r.metal_matches_per_batch is None,
    ensures
        r.metal_matches == 0 && r.cpu_matches == 0 && r.metal_fallbacks == 0
            ==> bottom_bar::detail_text(r).len() == 0,
        r.metal_matches > 0 && r.cpu_matches == 0 && r.metal_fallbacks == 0
            ==> bottom_bar::detail_text(r) == text::decimal(r.metal_matches as nat) + "g"@,
        r.metal_matches == 0 && r.cpu_matches > 0 && r.metal_fallbacks == 0
            ==> bottom_bar::detail_text(r) == text::decimal(r.cpu_matches as nat) + "c"@,
        r.metal_matches > 0 && r.cpu_matches > 0 && r.metal_fallbacks == 0
            ==> bottom_bar::detail_text(r) == text::decimal(r.metal_matches as nat) + "g"@ + "/"@ + (
        text::decimal(r.cpu_matches as nat) + "c"@),
{
    reveal_with_fuel(text::joined, 3);
    let a: Seq<Seq<char>> = bottom_bar::count_part(r.metal_matches, "g"@);
    let b: Seq<Seq<char>> = bottom_bar::count_part(r.cpu_matches, "c"@);
    let c: Seq<Seq<char>> = bottom_bar::count_part(r.metal_fallbacks, "fb"@);
    let all: Seq<Seq<char>> = a + b + c + Seq::<Seq<char>>::empty();
    assert(bottom_bar::detail_text(r) == text::joined(all, "/"@));
    if r.metal_fallbacks == 0 {
        if r.metal_matches > 0 && r.cpu_matches > 0 {
            assert(all =~= seq![a[0], b[0]]);
            assert(all.drop_last() =~= seq![a[0]]);
        } else if r.metal_matches > 0 {
            assert(all =~= seq![a[0]]);
        } else if r.cpu_matches > 0 {
            assert(all =~= seq![b[0]]);
        }
    }
}

/// What was opened out of the archive is shown before what is selected in the list.
pub proof fn the_archive_comes_first(
    st: AppState,
    swarm: SwarmRuntime,
    entry: OpenedEntry,
    syn: SyntaxTables,
    theme: Theme,
    width: int,
)
    requires
        width >= 1,
    ensures
        content::archived_rows(st, entry, syn, theme, width) is Some ==> content::popup_rows(
            st,
            swarm,
            Some(entry),
            syn,
            theme,
            width,
        ) == content::archived_rows(st, entry, syn, theme, width)->0,
        content::archived_rows(st, entry, syn, theme, width) is None ==> content::popup_rows(
            st,
            swarm,
            Some(entry),
            syn,
            theme,
            width,
        ) == content::popup_rows(st, swarm, None, syn, theme, width),
{
    reveal(content::popup_rows);
}

/// The popup shows the selected card; a prompt takes the whole of it, and anything else leaves room
/// for an answer.
pub proof fn the_popup_shows_the_selected_card(
    st: AppState,
    swarm: SwarmRuntime,
    syn: SyntaxTables,
    theme: Theme,
    width: int,
)
    requires
        width >= 1,
        popup::selected(st, Some(&swarm), width) is Some,
        content::reference_rows(
            st,
            swarm,
            popup::selected(st, Some(&swarm), width)->0.reference,
            syn,
            theme,
            width,
        ) is Some,
    ensures
        content::popup_rows(st, swarm, None, syn, theme, width) == content::reference_rows(
            st,
            swarm,
            popup::selected(st, Some(&swarm), width)->0.reference,
            syn,
            theme,
            width,
        )->0,
{
    reveal(content::popup_rows);
}

/// The content of the popup and the box for an answer share its height, without its frame.
pub proof fn the_box_takes_its_lines_from_the_content(
    st: AppState,
    swarm: SwarmRuntime,
    v: PopupView,
    area: Rect,
)
    requires
        area.height >= 7,
    ensures
        input::shows_prompt(st, swarm, area) ==> input::content_height(st, swarm, v, area)
            == area.height - 2,
        !input::shows_prompt(st, swarm, area) && input::box_lines(
            geometry::inside(area),
            v.chat_input@,
        ) + 4 <= area.height ==> input::content_height(st, swarm, v, area) + input::box_lines(
            geometry::inside(area),
            v.chat_input@,
        ) + 2 == area.height - 2,
{
}

/// A definition takes the colors of the line of the analysis that its line was.
pub proof fn definitions_take_the_colors_of_their_line(a: Analysis, line: int)
    requires
        0 <= line,
    ensures
        a.line_map is None && line < a.per_line@.len() && a.per_line@[line] is Some
            ==> definition_popup::known(Some(a), line) == Some(a.per_line@[line]->0@),
        a.line_map is Some && line < a.line_map->0@.len() && a.line_map->0@[line] is None
            ==> definition_popup::known(Some(a), line) is None,
        a.line_map is Some && line < a.line_map->0@.len() && a.line_map->0@[line] is Some
            && a.line_map->0@[line]->0 < a.per_line@.len()
            && a.per_line@[a.line_map->0@[line]->0 as int] is Some ==> definition_popup::known(
            Some(a),
            line,
        ) == Some(a.per_line@[a.line_map->0@[line]->0 as int]->0@),
        definition_popup::known(None, line) is None,
{
}

/// In the tree, directories and files have their own colors, and the selected row has the background
/// of the selection.
pub proof fn rows_of_the_tree_have_their_color(
    kind: FileTreeKind,
    selected: bool,
    theme: Theme,
    file_fg: Color,
)
    ensures
        kind is Dir ==> file_tree_view::row_style(kind, selected, theme, file_fg).fg == Some(
            theme.title,
        ),
        kind is File ==> file_tree_view::row_style(kind, selected, theme, file_fg).fg == Some(
            file_fg,
        ),
        kind is Loading ==> file_tree_view::row_style(kind, selected, theme, file_fg).fg == Some(
            theme.warning,
        ),
        selected ==> file_tree_view::row_style(kind, selected, theme, file_fg).bg == Some(
            theme.selection_bg,
        ),
        !selected ==> file_tree_view::row_style(kind, selected, theme, file_fg).bg is None,
        file_tree_view::switch(true) == "ON"@ && file_tree_view::switch(false) == "OFF"@,
{
}

} // verus!
