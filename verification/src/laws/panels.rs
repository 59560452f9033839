//! What the panels beside the console show.

use vstd::prelude::*;

use crate::artifacts_popup::code::StyledRange;
use crate::definition_popup;
use crate::definition_popup::DefinitionView;
use crate::file_tree_view;
use crate::file_tree_view::FileTree;
use crate::frames;
use crate::fuzzy_search_popup;
use crate::fuzzy_search_popup::FuzzySearch;
use crate::fuzzy_search_popup::SearchResultFile;
use crate::fit;
use crate::games_analysis_popup;
use crate::games_analysis_popup::GamesAnalysisState;
use crate::games_analysis_popup::StrategyRate;
use crate::games_analysis_popup::Styles;
use crate::style;
use crate::style::Color;
use crate::style::Style;
use crate::style::Theme;
use crate::text;

verus! {

/// The tree shows its rows from the scroll offset on, each with all of its text, and marks exactly
/// the selected one.
pub proof fn the_tree_shows_its_rows(
    tree: FileTree,
    height: int,
    theme: Theme,
    file_fg: Color,
    i: int,
    k: int,
)
    requires
        0 <= i < height,
        tree.scroll_offset + i < tree.rows@.len(),
        0 <= k < file_tree_view::shown_rows(tree, height, theme, file_fg)[i].len(),
    ensures
        i < file_tree_view::shown_rows(tree, height, theme, file_fg).len() <= height,
        style::plain_text(file_tree_view::shown_rows(tree, height, theme, file_fg)[i])
            == tree.rows@[tree.scroll_offset + i].text@,
        file_tree_view::shown_rows(tree, height, theme, file_fg)[i][k].style.bg == (
        if tree.scroll_offset + i == tree.selected {
            Some(theme.selection_bg)
        } else {
            None
        }),
{
    file_tree_view::rows_keep_text(
        tree.rows@[tree.scroll_offset + i],
        tree.scroll_offset + i == tree.selected,
        theme,
        file_fg,
    );
}

/// A view that is scrolled starts where it is scrolled to, as far as there are lines to fill it.
pub proof fn views_start_where_they_are_scrolled_to(wanted: int, total: int, height: int)
    requires
        0 <= wanted,
        0 <= height,
        0 <= total,
    ensures
        0 <= frames::scrolled(wanted, total, height) <= wanted,
        wanted + height <= total ==> frames::scrolled(wanted, total, height) == wanted,
        wanted + height > total && total >= height ==> frames::scrolled(wanted, total, height)
            == total - height,
        total <= height ==> frames::scrolled(wanted, total, height) == 0,
{
}

/// Of the ranges that cover a character, the last one styles it; without one it is plain.
pub proof fn the_last_range_styles(ranges: Seq<StyledRange>, base: Style, i: int, n: int, k: int)
    requires
        -1 <= k < n <= ranges.len(),
        k >= 0 ==> ranges[k].start <= i < ranges[k].end,
        forall|j: int| k < j < n ==> !((#[trigger] ranges[j]).start <= i < ranges[j].end),
    ensures
        definition_popup::style_at(ranges, base, i, n) == (if k >= 0 {
            base.patch(ranges[k].style)
        } else {
            base
        }),
    decreases n,
{
    if k < n - 1 {
        the_last_range_styles(ranges, base, i, n - 1, k);
    }
}

/// A definition is shown line by line from where it is scrolled to, each line whole.
pub proof fn definitions_are_shown_line_by_line(
    view: DefinitionView,
    theme: Theme,
    height: int,
    i: int,
)
    requires
        0 <= i < height,
        view.scroll + height <= view.lines@.len(),
        !text::has(view.lines@[view.scroll + i]@, '\t'),
    ensures
        definition_popup::shown_lines(view, None, theme, height).len() == height,
        style::plain_text(definition_popup::shown_lines(view, None, theme, height)[i])
            == view.lines@[view.scroll + i]@,
{
    views_start_where_they_are_scrolled_to(
        view.scroll as int,
        view.lines@.len() as int,
        height,
    );
    definition_popup::lines_keep_text(view.lines@[view.scroll + i]@, None, theme);
}

/// The header of a search tells the count of the list that is shown, unless there is a message.
pub proof fn a_search_tells_its_count(f: FuzzySearch)
    requires
        f.status_msg@.len() == 0,
    ensures
        f.mode is Files ==> fuzzy_search_popup::status(f) == text::decimal(f.file_results@.len())
            + " results"@,
        f.mode is Content ==> fuzzy_search_popup::status(f) == text::decimal(
            f.match_results@.len(),
        ) + " results"@,
{
}

/// The characters of a path that were matched stand out, and no others.
pub proof fn matched_characters_stand_out(
    f: SearchResultFile,
    i: int,
    k: int,
    selected: bool,
    theme: Theme,
)
    requires
        0 <= k < f.matched_indices@.len(),
        theme.accent != theme.foreground,
    ensures
        fuzzy_search_popup::hit_style(f, f.matched_indices@[k] as int, selected, theme).fg == Some(
            theme.accent,
        ),
        (forall|j: int| 0 <= j < f.matched_indices@.len() ==> #[trigger] f.matched_indices@[j] != i)
            ==> fuzzy_search_popup::hit_style(f, i, selected, theme).fg == Some(theme.foreground),
{
    assert(f.matched_indices@[k] == f.matched_indices@[k]);
}

/// A preview shows its anchor a third of the way down, moves with the wish to scroll, and never
/// leaves the file.
pub proof fn previews_stay_in_the_file(lines: int, anchor: int, height: int, delta: int)
    requires
        0 <= lines,
        0 <= anchor,
        0 <= height,
    ensures
        0 <= fuzzy_search_popup::preview_from(lines, anchor, height, delta) <= text::max_int(
            lines - height,
            0,
        ) + 1,
        height >= 1 ==> fuzzy_search_popup::preview_from(lines, anchor, height, delta)
            <= text::max_int(lines - height, 0),
        height >= 1 && height / 3 <= anchor && anchor - height / 3 + height <= lines
            ==> fuzzy_search_popup::preview_from(lines, anchor, height, 0) == anchor - height / 3,
        fuzzy_search_popup::preview_from(lines, anchor, height, delta)
            <= fuzzy_search_popup::preview_from(lines, anchor, height, delta + 1),
{
}

/// An analysis that runs is called so; one that has stopped is called after its error, else after
/// its outcome.
pub proof fn an_analysis_tells_how_it_stands(a: GamesAnalysisState, s: Styles)
    ensures
        a.running ==> games_analysis_popup::status(a, s).0 == "RUNNING"@,
        !a.running && a.last_error is Some ==> games_analysis_popup::status(a, s).0 == "ERROR"@,
        !a.running && a.last_error is None && a.summary is Some ==> games_analysis_popup::status(
            a,
            s,
        ).0 == "DONE"@,
        !a.running && a.last_error is None && a.summary is None ==> games_analysis_popup::status(
            a,
            s,
        ).0 == "IDLE"@,
{
}

/// Every strategy has its row, in order, with its own rates and rounds.
pub proof fn every_strategy_has_its_row(all: Seq<StrategyRate>, s: Styles, width: int, i: int)
    requires
        0 <= i < all.len(),
    ensures
        games_analysis_popup::strategy_rows(all, s, width).len() == all.len(),
        games_analysis_popup::strategy_rows(all, s, width)[i][0].text == fit::right_at_least(
            text::decimal((i + 1) as nat),
            2,
        ) + " "@,
        games_analysis_popup::strategy_rows(all, s, width)[i][3].text == all[i].coop@ + "%"@,
        games_analysis_popup::strategy_rows(all, s, width)[i][5].text == all[i].tail_coop@ + "%"@,
        games_analysis_popup::strategy_rows(all, s, width)[i][7].text == text::decimal(
            all[i].rounds as nat,
        ),
{
}

} // verus!
