//! What the rows of rosters, claims, searches and bars tell, and how areas are shared out.

use vstd::prelude::*;

use crate::agent_ops_view::roster;
use crate::agent_ops_view::roster::RosterBodyMeta;
use crate::agent_ops_view::roster::RosterBodyNode;
use crate::agent_ops_view::roster::RosterSelectableRow;
use crate::agent_ops_view::roster_lines;
use crate::artifacts_history_popup;
use crate::artifacts_history_popup::ArchiveList;
use crate::bottom_bar;
use crate::bottom_bar::BarState;
use crate::bottom_bar::GpuSummary;
use crate::bottom_bar::SystemStats;
use crate::claims_view;
use crate::claims_view::ActiveClaim;
use crate::claims_view::ClaimTarget;
use crate::fit;
use crate::fuzzy_search_popup;
use crate::fuzzy_search_popup::FuzzySearch;
use crate::fuzzy_search_popup::SearchResultMatch;
use crate::geometry;
use crate::geometry::Height;
use crate::geometry::Rect;
use crate::order;
use crate::state;
use crate::state::AppState;
use crate::state::RosterTreeBranch;
use crate::state::RosterTreeSelection;
use crate::state::SwarmRuntime;
use crate::style::Piece;
use crate::style::Theme;
use crate::text;

verus! {

/// The choices for an agent are open only below the selected agent, and only where it was not
/// folded.
pub proof fn only_the_selected_agent_is_unfolded(st: AppState, idx: usize, fold_chat: bool)
    ensures
        roster_lines::agent_nodes(st, idx, fold_chat).len() >= 1,
        roster_lines::agent_nodes(st, idx, fold_chat)[0] == (RosterBodyMeta {
            agent_idx: Some(idx),
            node: RosterBodyNode::Agent,
        }),
        roster_lines::agent_nodes(st, idx, fold_chat).len() > 1 ==> idx
            == st.agents.roster_selected && forall|k: int|
            0 <= k < st.agents.roster_tree_collapsed_agent_ids@.len() ==> (
            #[trigger] st.agents.roster_tree_collapsed_agent_ids@[k])@
                != st.agents.agents@[idx as int].id@,
{
}

/// Below the selected agent every effort that it supports can be chosen, in the order in which they
/// are given.
pub proof fn every_effort_can_be_chosen(st: AppState, idx: usize, fold_chat: bool, i: int)
    requires
        roster_lines::unfolded(st, idx as int, fold_chat),
        0 <= i < roster_lines::efforts(st, st.agents.agents@[idx as int].id@).len(),
        i <= usize::MAX,
    ensures
        roster_lines::agent_nodes(st, idx, fold_chat).len() > i + 2,
        roster_lines::agent_nodes(st, idx, fold_chat)[i + 2] == (RosterBodyMeta {
            agent_idx: Some(idx),
            node: RosterBodyNode::Leaf { branch: RosterTreeBranch::Size, leaf_idx: i as usize },
        }),
{
}

/// An effort is checked exactly where it is the one that was chosen for the agent.
pub proof fn the_chosen_effort_is_checked(
    st: AppState,
    swarm: Option<&SwarmRuntime>,
    w: Seq<usize>,
    idx: usize,
    i: usize,
)
    requires
        idx < st.agents.agents@.len(),
        state::value_of(
            st.agents.codex_selected_reasoning_effort@,
            st.agents.agents@[idx as int].id@,
        ) is Some,
    ensures
        ({
            let id: Seq<char> = st.agents.agents@[idx as int].id@;
            let chosen: Seq<char> = state::value_of(
                st.agents.codex_selected_reasoning_effort@,
                id,
            )->0@;
            let name: Seq<char> = roster_lines::efforts(st, id)[i as int]@;
            roster_lines::node_line(
                st,
                swarm,
                w,
                RosterBodyMeta {
                    agent_idx: Some(idx),
                    node: RosterBodyNode::Leaf { branch: RosterTreeBranch::Size, leaf_idx: i },
                },
            ) == roster_lines::choice_line(
                st,
                w,
                RosterTreeSelection { branch: RosterTreeBranch::Size, leaf_idx: i },
                name == chosen,
                name,
            )
        }),
{
}

/// A choice is told by its name behind a box; the box has a cross in it exactly where it is checked,
/// and the cursor stands before the line that is selected.
pub proof fn choices_are_told_by_their_box(
    st: AppState,
    w: Seq<usize>,
    at: RosterTreeSelection,
    checked: bool,
    name: Seq<char>,
)
    requires
        w.len() == 5,
        !st.ascii_fallback,
        12 + name.len() <= w[0],
    ensures
        ({
            let line: Seq<char> = roster_lines::choice_line(st, w, at, checked, name);
            &&& line.len() > 12 + name.len()
            &&& line[0] == (if st.agents.roster_tree_selected == Some(at) {
                '➜'
            } else {
                ' '
            })
            &&& line[9] == '['
            &&& line[10] == (if checked {
                'x'
            } else {
                ' '
            })
            &&& line[11] == ']'
            &&& line.subrange(13, 13int + name.len()) == name
        }),
{
    reveal_strlit("      ");
    reveal_strlit(" [x] ");
    reveal_strlit(" [ ] ");
    reveal_strlit("");
    let line: Seq<char> = roster_lines::choice_line(st, w, at, checked, name);
    assert(line.subrange(13, 13int + name.len()) =~= name);
}

/// A backend that was chosen is selected as long as it has agents; else the chosen agent is, where
/// it is listed.
pub proof fn the_choice_is_selected(st: AppState)
    ensures
        st.agents.roster_selected_backend is Some && roster::members(
            st,
            st.agents.roster_selected_backend->0,
        ).len() > 0 ==> roster::selected(st) == Some(
            RosterSelectableRow::Backend { backend: st.agents.roster_selected_backend->0 },
        ),
        st.agents.roster_selected_backend is None && roster::display_order(st).contains(
            st.agents.roster_selected,
        ) ==> roster::selected(st) == Some(
            RosterSelectableRow::Agent { agent_idx: st.agents.roster_selected },
        ),
{
}

/// Columns have the widths that they should have, where there is room for all of them; the last one
/// takes what is left.
pub proof fn columns_have_their_widths_where_there_is_room(
    total: int,
    mins: Seq<usize>,
    prefs: Seq<usize>,
    separators: int,
    i: int,
)
    requires
        prefs.len() == mins.len(),
        0 <= i < prefs.len(),
        fit::sum(mins) + separators < total,
        fit::sum(prefs) + separators <= total,
        prefs.last() + (total - fit::sum(prefs) - separators) <= usize::MAX,
    ensures
        i < prefs.len() - 1 ==> fit::allocated(total, mins, prefs, separators)[i] == prefs[i],
        i == prefs.len() - 1 ==> fit::allocated(total, mins, prefs, separators)[i] == prefs[i] + (
        total - fit::sum(prefs) - separators),
{
    let over: int = fit::sum(prefs) + separators - total;
    assert(fit::shrunk(prefs, mins, over, prefs.len() as int) == prefs);
}

/// Names are compared by the first characters in which they differ, and a name comes before the
/// names that it begins.
pub proof fn names_are_compared_by_their_first_difference(
    p: Seq<char>,
    a: char,
    s: Seq<char>,
    b: char,
    t: Seq<char>,
)
    requires
        a != b,
    ensures
        order::less(p + (seq![a] + s), p + (seq![b] + t)) <==> a < b,
        order::less(p, p + (seq![a] + s)),
        !order::less(p + (seq![a] + s), p),
        !order::less(p, p),
    decreases p.len(),
{
    let x: Seq<char> = p + (seq![a] + s);
    let y: Seq<char> = p + (seq![b] + t);
    if p.len() > 0 {
        let q: Seq<char> = p.subrange(1, p.len() as int);
        names_are_compared_by_their_first_difference(q, a, s, b, t);
        assert(x.subrange(1, x.len() as int) =~= q + (seq![a] + s));
        assert(y.subrange(1, y.len() as int) =~= q + (seq![b] + t));
        assert(x[0] == p[0] && y[0] == p[0]);
    } else {
        assert(x[0] == a && y[0] == b);
    }
}

proof fn starts_add_up(area: Rect, heights: Seq<Height>, n: int)
    requires
        0 <= n <= heights.len(),
    ensures
        geometry::row_start(area, heights, n) == area.y + geometry::fixed_upto(heights, n)
            + geometry::growing_upto(heights, n) * (area.height - geometry::fixed_upto(
            heights,
            heights.len() as int,
        )),
        0 <= geometry::fixed_upto(heights, n) <= geometry::least_upto(heights, n),
    decreases n,
{
    if n > 0 {
        starts_add_up(area, heights, n - 1);
        let rest: int = area.height - geometry::fixed_upto(heights, heights.len() as int);
        let g: int = geometry::growing_upto(heights, n - 1);
        assert((g + 1) * rest == g * rest + rest) by (nonlinear_arith);
    }
}

/// Rows that fit stand one below another from the top of their area to its end; each has the height
/// that it must have, and the one that can grow takes the rest.
pub proof fn rows_fill_their_area(area: Rect, heights: Seq<Height>, i: int)
    requires
        geometry::fits(area, heights),
        0 <= i < heights.len(),
    ensures
        geometry::row_start(area, heights, 0) == area.y,
        geometry::row_start(area, heights, heights.len() as int) == area.y + area.height,
        geometry::row_start(area, heights, i + 1) == geometry::row_start(area, heights, i)
            + geometry::row_height(area, heights, i),
        heights[i] matches Height::Exactly(k) ==> geometry::row_height(area, heights, i) == k,
{
    starts_add_up(area, heights, heights.len() as int);
    let rest: int = area.height - geometry::fixed_upto(heights, heights.len() as int);
    assert(1 * rest == rest);
}

/// The bar tells the load of the machine, a hundred percent at most, and the memory where it is
/// known.
pub proof fn the_bar_tells_the_load(b: BarState, stats: SystemStats, theme: Theme)
    ensures
        ({
            let all: Seq<Piece> = bottom_bar::metrics(b, stats, theme);
            &&& all.len() >= 10
            &&& stats.cpu_percent <= 100 ==> all[6].text == text::two_digits(
                stats.cpu_percent as nat,
            ) + "%"@
            &&& stats.cpu_percent > 100 ==> all[6].text == text::two_digits(100) + "%"@
            &&& stats.mem is Some ==> all.last().text == (stats.mem->0).0@ + "/"@ + (stats.mem->0).1@
                + "G"@
        }),
{
}

/// Of a graphics processor its load comes first, then its memory, and its name only where neither is
/// known.
pub proof fn the_bar_tells_what_is_known_of_the_gpu(g: GpuSummary)
    ensures
        g.usage_percent is Some && g.mem_total_gb is Some ==> bottom_bar::gpu_texts(g) == (
            "GPU "@,
            text::two_digits(g.usage_percent->0 as nat) + "%/"@ + g.mem_total_gb->0@ + "G"@,
        ),
        g.usage_percent is Some && g.mem_total_gb is None ==> bottom_bar::gpu_texts(g) == (
            "GPU "@,
            text::two_digits(g.usage_percent->0 as nat) + "%"@,
        ),
        g.usage_percent is None && g.mem_total_gb is Some ==> bottom_bar::gpu_texts(g) == (
            "VRAM "@,
            g.mem_total_gb->0@ + "G"@,
        ),
        g.usage_percent is None && g.mem_total_gb is None && g.name is Some
            ==> bottom_bar::gpu_texts(g) == ("GPU "@, g.name->0@),
{
}

proof fn front_of_sum(a: Seq<char>, b: Seq<char>)
    ensures
        (a + b).len() >= a.len(),
        (a + b).take(a.len() as int) == a,
{
    assert((a + b).take(a.len() as int) =~= a);
}

proof fn claim_rows_start_with_their_time(
    ttl: Seq<char>,
    kind: Seq<char>,
    by: Seq<char>,
    target: Seq<char>,
    age: Seq<char>,
    id: Seq<char>,
    width: u16,
)
    ensures
        text::starts(
            claims_view::row(ttl, kind, by, target, age, id, width),
            fit::right_at_least(ttl, 4),
        ),
{
    let time: Seq<char> = fit::right_at_least(ttl, 4);
    let b: Seq<char> = fit::at_least(fit::truncated(kind, 14), 14);
    let c: Seq<char> = fit::at_least(by, 26);
    let d: Seq<char> = fit::at_least(fit::truncated(target, 48), 48);
    let first: Seq<char> = time + "  "@ + b + " "@ + c + " "@ + d;
    let more: Seq<char> = "  "@ + b + " "@ + c + " "@ + d;
    assert(first =~= time + more);
    let aged: Seq<char> = if width >= 70 {
        first + " "@ + fit::right_at_least(age, 5)
    } else {
        first
    };
    let behind: Seq<char> = if width >= 70 {
        more + " "@ + fit::right_at_least(age, 5)
    } else {
        more
    };
    assert(aged =~= time + behind);
    let rest: Seq<char> = if width >= 90 {
        behind + "  "@ + id
    } else {
        behind
    };
    let line: Seq<char> = claims_view::row(ttl, kind, by, target, age, id, width);
    assert(line =~= time + rest);
    front_of_sum(time, rest);
    assert(line.subrange(0, time.len() as int) =~= line.take(time.len() as int));
}

/// The claims have a row each, in their order, below the summary and the heading, with the time that
/// is left of the claim in front.
pub proof fn every_claim_has_its_row(
    claims: Seq<ActiveClaim>,
    generation: u64,
    theme: Theme,
    width: u16,
    i: int,
)
    requires
        0 <= i < claims.len(),
    ensures
        claims_view::claim_rows(claims, generation, theme, width).len() == claims.len() + 3,
        claims_view::claim_rows(claims, generation, theme, width)[i + 3].len() == 1,
        text::starts(
            claims_view::claim_rows(claims, generation, theme, width)[i + 3][0].text,
            fit::right_at_least(text::decimal(claims[i].remaining as nat) + "g"@, 4),
        ),
{
    let c: ActiveClaim = claims[i];
    claim_rows_start_with_their_time(
        text::decimal(c.remaining as nat) + "g"@,
        claims_view::label(c.claim.kind),
        fit::truncated(claims_view::short_id(c.claim.claimed_by@), 26),
        claims_view::target_text(c.claim.target),
        text::decimal(claims_view::age(generation, c.claim.claimed_at_gen)) + "g"@,
        fit::truncated(claims_view::short_id(c.claim.id@), 36),
        width,
    );
    assert(claims_view::claim_rows(claims, generation, theme, width)[i + 3]
        == claims_view::claim_row(c, generation, width, theme));
}

/// The summary of the claims starts with how many there are.
pub proof fn the_summary_counts_the_claims(claims: Seq<ActiveClaim>, generation: u64)
    ensures
        text::starts(
            claims_view::summary(claims, generation),
            text::decimal(claims.len()) + " active   "@,
        ),
{
    reveal_strlit(" active   gen ");
    reveal_strlit(" active   [");
    reveal_strlit(" active   ");
    reveal_strlit("gen ");
    reveal_strlit("[");
    let d: Seq<char> = text::decimal(claims.len());
    let head: Seq<char> = d + " active   "@;
    let told: Seq<char> = claims_view::summary(claims, generation);
    let counts: Seq<char> = claims_view::kind_counts(claims);
    let rest: Seq<char> = if counts.len() == 0 {
        "gen "@ + text::decimal(generation as nat)
    } else {
        "["@ + counts + "]   gen "@ + text::decimal(generation as nat)
    };
    assert(" active   gen "@ =~= " active   "@ + "gen "@);
    assert(" active   ["@ =~= " active   "@ + "["@);
    assert(told =~= head + rest);
    front_of_sum(head, rest);
    assert(told.subrange(0, head.len() as int) =~= told.take(head.len() as int));
}

/// A claim on a region is told with its first and its last line.
pub proof fn claims_on_regions_tell_their_lines(t: ClaimTarget)
    ensures
        t is Global ==> claims_view::target_text(t) == "Global"@,
        t matches ClaimTarget::Region { path, start_line, end_line } ==> text::ends(
            claims_view::target_text(t),
            "#"@ + text::decimal(start_line as nat) + "-"@ + text::decimal(end_line as nat),
        ),
        t is File ==> text::starts(claims_view::target_text(t), "file:"@),
{
    match t {
        ClaimTarget::Region { path, start_line, end_line } => {
            let s: Seq<char> = claims_view::target_text(t);
            let end: Seq<char> = "#"@ + text::decimal(start_line as nat) + "-"@ + text::decimal(
                end_line as nat,
            );
            assert(s.subrange(s.len() - end.len(), s.len() as int) =~= end);
        },
        ClaimTarget::File { path } => {
            let s: Seq<char> = claims_view::target_text(t);
            assert(s.subrange(0, "file:"@.len() as int) =~= "file:"@);
        },
        ClaimTarget::Global => {},
    }
}

/// The list of the archive says what is searched for, how many artifacts there are and how many of
/// them match.
pub proof fn the_archive_tells_what_it_found(list: ArchiveList, theme: Theme, width: int)
    requires
        list.query@.len() > 0,
    ensures
        ({
            let rows: Seq<Seq<Piece>> = artifacts_history_popup::rows(list, theme, width);
            &&& rows.len() >= 4
            &&& rows[0][1].text == list.query@
            &&& rows[1][3].text == text::decimal(list.index@.len()) + " artifacts"@
            &&& rows[1][5].text == text::decimal(list.filtered@.len()) + " matching"@
            &&& list.filter is LastDay ==> rows[1][1].text == "24h"@
            &&& list.filter is LastWeek ==> rows[1][1].text == "7d"@
            &&& list.filter is LastMonth ==> rows[1][1].text == "30d"@
            &&& list.filter is All ==> rows[1][1].text == "all"@
        }),
{
    reveal(artifacts_history_popup::rows);
}

/// Each line of the results shows the result of its place, from where the list is scrolled to, and
/// exactly the chosen one is marked.
pub proof fn results_are_listed_in_their_order(
    f: FuzzySearch,
    theme: Theme,
    height: int,
    i: int,
)
    requires
        height > 0,
        f.scroll_offset == 0,
        f.selected < height,
        0 <= i < height,
        f.mode is Files ==> i < f.file_results@.len() && f.selected < f.file_results@.len(),
        f.mode is Content ==> i < f.match_results@.len() && f.selected < f.match_results@.len(),
    ensures
        ({
            let rows: Seq<Seq<Piece>> = fuzzy_search_popup::result_rows(f, theme, height);
            &&& i < rows.len() <= height
            &&& rows[i][0].text == "› "@ <==> i == f.selected
            &&& f.mode is Files ==> rows[i] == fuzzy_search_popup::file_row(
                f.file_results@[i],
                i == f.selected,
                theme,
            )
            &&& f.mode is Content ==> rows[i] == fuzzy_search_popup::match_row(
                f.match_results@[i],
                i == f.selected,
                theme,
            )
        }),
{
    reveal_strlit("› ");
    reveal_strlit("  ");
    assert("› "@[0] == '›');
    assert("  "@[0] == ' ');
}

/// A match in a file is told by its path, its line and its column, and the characters that match
/// stand out in its line.
pub proof fn matches_tell_where_they_are(m: SearchResultMatch, selected: bool, theme: Theme)
    requires
        0 < m.match_start,
        0 < m.match_len,
        m.match_start + m.match_len < m.snippet@.len(),
    ensures
        ({
            let row: Seq<Piece> = fuzzy_search_popup::match_row(m, selected, theme);
            &&& row.len() == 5
            &&& row[1].text == m.rel_path@ + ":"@ + text::decimal(m.line as nat) + ":"@
                + text::decimal(m.col as nat) + "  "@
            &&& row[2].text == m.snippet@.take(m.match_start as int)
            &&& row[3].text == m.snippet@.subrange(
                m.match_start as int,
                m.match_start + m.match_len,
            )
            &&& row[4].text == m.snippet@.skip(m.match_start + m.match_len)
            &&& row[3].style.underlined && !row[2].style.underlined && !row[4].style.underlined
        }),
{
    let s: Seq<char> = m.snippet@;
    let from: int = m.match_start as int;
    let to: int = m.match_start + m.match_len;
    let rest: Seq<char> = text::tail(s, from);
    assert(text::head(s, from) =~= s.take(from));
    assert(text::head(rest, to - from) =~= s.subrange(from, to));
    assert(text::tail(rest, to - from) =~= s.skip(to));
}

} // verus!
