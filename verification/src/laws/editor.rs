//! How the characters of a buffer are drawn.

use vstd::prelude::*;

use crate::editor_view::buffer;
use crate::editor_view::buffer::Buffer;
use crate::editor_view::buffer::HighlightSnapshot;
use crate::editor_view::buffer::LineDiffStatus;
use crate::editor_view::buffer::Mode;
use crate::editor_view::buffer::Segment;
use crate::editor_view::looks;
use crate::editor_view::looks::BracketRender;
use crate::editor_view::looks::Marks;
use crate::editor_view::pane;
use crate::editor_view::pane::PaneLook;
use crate::editor_view::spans;
use crate::geometry::Rect;
use crate::style::Color;
use crate::style::Style;
use crate::style::Theme;
use crate::text;

verus! {

/// A character of a line is selected exactly where its place in the buffer lies in the selection,
/// on whichever line the selection begins.
pub proof fn places_in_the_selection_are_selected(b: Buffer, line: int, i: int)
    requires
        0 <= line < b.lines@.len(),
        0 <= i,
        b.lines@[line].char_start + i < b.lines@[line].char_end,
        b.selection is Some,
    ensures
        looks::is_selected(b, line, i) <==> (b.selection->0).0 <= b.lines@[line].char_start + i < (
        b.selection->0).1,
{
}

/// Without a selection nothing is selected.
pub proof fn nothing_is_selected_without_a_selection(b: Buffer, line: int, i: int)
    requires
        b.selection is None,
    ensures
        !looks::is_selected(b, line, i),
{
}

/// A selected character has the background of the selection, and one that is not selected has it
/// only where the line, the syntax or the search gives it; a bracket of the pair has its own.
pub proof fn the_selection_is_seen(
    b: Buffer,
    segs: Option<Seq<Segment>>,
    m: Marks,
    base: Style,
    line: int,
    i: int,
    theme: Theme,
)
    requires
        0 <= line < b.lines@.len(),
        0 <= i,
        b.lines@[line].char_start + i < b.lines@[line].char_end,
        b.selection is Some,
        m.pair is None,
    ensures
        (b.selection->0).0 <= b.lines@[line].char_start + i < (b.selection->0).1 ==> looks::look(
            b,
            segs,
            m,
            base,
            line,
            i,
            theme,
        ).bg == Some(theme.selection_bg),
        m.search is None && segs is None && !((b.selection->0).0 <= b.lines@[line].char_start + i < (
        b.selection->0).1) ==> looks::look(b, segs, m, base, line, i, theme) == base,
{
}

/// Both brackets of the pair stand out, wherever they are, and nothing else does on their account.
pub proof fn both_brackets_stand_out(
    b: Buffer,
    segs: Option<Seq<Segment>>,
    search: Option<buffer::SearchHighlight>,
    pair: BracketRender,
    base: Style,
    line: int,
    i: int,
    theme: Theme,
)
    ensures
        ({
            let with: Style = looks::look(
                b,
                segs,
                Marks { search, pair: Some(pair) },
                base,
                line,
                i,
                theme,
            );
            let without: Style = looks::look(
                b,
                segs,
                Marks { search, pair: None },
                base,
                line,
                i,
                theme,
            );
            if (pair.cursor_line == line && pair.cursor_col == i) || (pair.partner_line == line
                && pair.partner_col == i) {
                with.bg == Some(theme.bracket_match) && with.bold && with.underlined && with.fg
                    == without.fg
            } else {
                with == without
            }
        }),
{
}

/// The pair is the caret's place and that of its partner. It is marked where the caret is in sight,
/// nothing is being selected, and no range of a string or a comment covers the caret.
pub proof fn the_pair_is_at_the_caret(
    b: Buffer,
    s: Option<HighlightSnapshot>,
    mode: Mode,
    height: int,
)
    ensures
        ({
            let pair: Option<BracketRender> = looks::bracket_pair(b, s, mode, height);
            &&& pair is Some ==> pair->0.cursor_line == b.cursor_line && pair->0.cursor_col
                == b.cursor_col && b.bracket_partner == Some(
                (pair->0.partner_line, pair->0.partner_col),
            ) && mode !is Visual && b.viewport.offset_line <= b.cursor_line
                < b.viewport.offset_line + height
            &&& b.bracket_partner is Some && mode !is Visual && b.viewport.offset_line
                <= b.cursor_line < b.viewport.offset_line + height && s is None ==> pair is Some
        }),
{
}

/// A caret in a string or a comment has no pair.
pub proof fn quoted_brackets_are_left_alone(
    b: Buffer,
    s: Option<HighlightSnapshot>,
    mode: Mode,
    height: int,
    k: int,
)
    requires
        buffer::segments_of(b, s, b.cursor_line as int) is Some,
        0 <= k < buffer::segments_of(b, s, b.cursor_line as int)->0.len(),
        ({
            let range: Segment = buffer::segments_of(b, s, b.cursor_line as int)->0[k];
            range.quoted && range.start <= b.cursor_col < range.end
        }),
    ensures
        looks::bracket_pair(b, s, mode, height) is None,
{
}

/// A character in a match has the background of a selection and is bold; where the caret stands in
/// that match while the term is being typed, the character is reversed too.
pub proof fn matches_are_marked(
    found: Seq<(usize, usize)>,
    caret: Option<int>,
    base: Style,
    i: int,
    theme: Theme,
    n: int,
    k: int,
)
    requires
        0 <= k < n <= found.len(),
        found[k].0 <= i < found[k].1,
    ensures
        looks::found_style(found, caret, base, i, theme, n).bg == Some(theme.selection_bg),
        looks::found_style(found, caret, base, i, theme, n).bold,
        caret is Some && found[k].0 <= caret->0 < found[k].1 ==> looks::found_style(
            found,
            caret,
            base,
            i,
            theme,
            n,
        ).reversed,
    decreases n,
{
    if k < n - 1 {
        matches_are_marked(found, caret, base, i, theme, n - 1, k);
    }
}

/// A character outside of all matches is drawn as if there were no search.
pub proof fn other_characters_are_not_marked(
    found: Seq<(usize, usize)>,
    caret: Option<int>,
    base: Style,
    i: int,
    theme: Theme,
    n: int,
)
    requires
        n <= found.len(),
        forall|k: int| 0 <= k < n ==> !((#[trigger] found[k]).0 <= i < found[k].1),
    ensures
        looks::found_style(found, caret, base, i, theme, n) == base,
    decreases n,
{
    if n > 0 {
        other_characters_are_not_marked(found, caret, base, i, theme, n - 1);
    }
}

/// The matches that are marked are those of the line itself, and only while there is a term to be
/// found; the caret's match stands out only on the caret's line and while the term is typed.
pub proof fn a_search_marks_its_matches(
    b: Buffer,
    search: buffer::SearchHighlight,
    base: Style,
    line: int,
    i: int,
    theme: Theme,
)
    requires
        0 <= line < b.lines@.len(),
    ensures
        search.term@.len() == 0 ==> looks::search_style(b, Some(search), base, line, i, theme)
            == base,
        search.term@.len() > 0 && (exists|k: int|
            0 <= k < b.lines@[line].matches@.len() && (#[trigger] b.lines@[line].matches@[k]).0 <= i
                < b.lines@[line].matches@[k].1) ==> looks::search_style(
            b,
            Some(search),
            base,
            line,
            i,
            theme,
        ).bg == Some(theme.selection_bg),
        (forall|k: int|
            0 <= k < b.lines@[line].matches@.len() ==> !((#[trigger] b.lines@[line].matches@[k]).0
                <= i < b.lines@[line].matches@[k].1)) ==> looks::search_style(
            b,
            Some(search),
            base,
            line,
            i,
            theme,
        ) == base,
        !search.live || line != b.cursor_line ==> looks::live_caret(b, search.live, line) is None,
        search.live && line == b.cursor_line ==> looks::live_caret(b, search.live, line) == Some(
            b.cursor_col as int,
        ),
{
    let found: Seq<(usize, usize)> = b.lines@[line].matches@;
    let caret: Option<int> = looks::live_caret(b, search.live, line);
    if exists|k: int| 0 <= k < found.len() && (#[trigger] found[k]).0 <= i < found[k].1 {
        let k: int = choose|k: int|
            0 <= k < found.len() && (#[trigger] found[k]).0 <= i < found[k].1;
        matches_are_marked(found, caret, base, i, theme, found.len() as int, k);
    } else {
        other_characters_are_not_marked(found, caret, base, i, theme, found.len() as int);
    }
}

/// The last range of the analysis that covers a character decides on its color.
pub proof fn the_last_range_colors(segs: Seq<Segment>, base: Style, i: int, n: int, k: int)
    requires
        0 <= k < n <= segs.len(),
        segs[k].start <= i < segs[k].end,
        segs[k].style.fg is Some,
        forall|j: int| k < j < n ==> !((#[trigger] segs[j]).start <= i < segs[j].end),
    ensures
        looks::syntax_style(segs, base, i, n).fg == segs[k].style.fg,
    decreases n,
{
    if k < n - 1 {
        the_last_range_colors(segs, base, i, n - 1, k);
    }
}

/// A character that no range covers has the style of its line.
pub proof fn uncovered_characters_are_plain(segs: Seq<Segment>, base: Style, i: int, n: int)
    requires
        n <= segs.len(),
        forall|j: int| 0 <= j < n ==> !((#[trigger] segs[j]).start <= i < segs[j].end),
    ensures
        looks::syntax_style(segs, base, i, n) == base,
    decreases n,
{
    if n > 0 {
        uncovered_characters_are_plain(segs, base, i, n - 1);
    }
}

/// The line of the caret has a background of its own and is underlined, unless something is being
/// selected; every other line has neither.
pub proof fn the_line_of_the_caret_is_seen(b: Buffer, p: PaneLook, line: int)
    ensures
        line == b.cursor_line && !p.selecting ==> pane::line_base(b, p, line).bg == Some(
            p.theme.cursor_line_bg,
        ) && pane::line_base(b, p, line).underlined,
        line != b.cursor_line || p.selecting ==> pane::line_base(b, p, line).bg == Some(p.bg)
            && !pane::line_base(b, p, line).underlined,
        pane::line_base(b, p, line).fg == Some(p.theme.foreground),
{
}

/// The rows show the lines from the first one in sight on, each behind its number, counted from one.
pub proof fn rows_are_numbered(
    b: Buffer,
    s: Option<HighlightSnapshot>,
    p: PaneLook,
    height: int,
    row: int,
)
    requires
        0 <= row < height,
        b.viewport.offset_line + row < b.lines@.len(),
    ensures
        pane::pane_rows(b, s, p, height).len() == height,
        ({
            let number: Seq<char> = text::decimal((b.viewport.offset_line + row + 1) as nat);
            let shown: Seq<char> = pane::pane_rows(b, s, p, height)[row][0].text;
            &&& shown.len() >= 5
            &&& shown.len() >= number.len() + 2
            &&& shown.subrange(shown.len() - 1 - number.len(), shown.len() - 1) == number
            &&& forall|i: int|
                0 <= i < shown.len() - 1 - number.len() ==> #[trigger] shown[i] == ' '
            &&& shown[shown.len() - 1] == ' '
        }),
{
    reveal_strlit(" ");
    let line: int = b.viewport.offset_line + row;
    let number: Seq<char> = text::decimal((line + 1) as nat);
    let shown: Seq<char> = pane::number_text(b, line);
    assert(shown.subrange(shown.len() - 1 - number.len(), shown.len() - 1) =~= number);
}

/// Behind the last line of the text there are no numbers.
pub proof fn no_numbers_behind_the_text(b: Buffer, line: int, i: int)
    requires
        line >= b.lines@.len(),
        line >= 1,
        0 <= i < pane::number_text(b, line).len(),
    ensures
        pane::number_text(b, line)[i] == ' ',
{
    reveal_strlit(" ");
}

/// The bar behind a number tells how its line has changed: its color where it was added, changed or
/// follows deleted lines, and its shape in the last case.
pub proof fn the_bar_tells_the_change(
    caret_line: bool,
    bg: Color,
    status: LineDiffStatus,
    theme: Theme,
)
    ensures
        status is Added ==> looks::bar_style(caret_line, bg, status, theme).fg == Some(
            theme.diff_added,
        ),
        status is Modified ==> looks::bar_style(caret_line, bg, status, theme).fg == Some(
            theme.diff_modified,
        ),
        status is DeletedAbove ==> looks::bar_style(caret_line, bg, status, theme).fg == Some(
            theme.diff_deleted,
        ),
        status is Unchanged && !caret_line ==> looks::bar_style(caret_line, bg, status, theme).fg
            == Some(theme.border),
        status is Unchanged && caret_line ==> looks::bar_style(caret_line, bg, status, theme).fg
            == Some(theme.border_focused),
        status is DeletedAbove ==> pane::bar_text(status) == seq!['▔', ' '],
        status !is DeletedAbove ==> pane::bar_text(status) == seq!['│', ' '],
{
    reveal_strlit("▔");
    reveal_strlit("│");
    reveal_strlit(" ");
    assert("▔"@ + " "@ =~= seq!['▔', ' ']);
    assert("│"@ + " "@ =~= seq!['│', ' ']);
}

proof fn nothing_to_take_out(s: Seq<char>, n: int)
    requires
        0 <= n <= s.len(),
        forall|i: int| 0 <= i < n ==> #[trigger] s[i] != '\r',
    ensures
        buffer::without_returns(s, n) == s.take(n),
    decreases n,
{
    if n > 0 {
        nothing_to_take_out(s, n - 1);
        assert(s.take(n) =~= s.take(n - 1).push(s[n - 1]));
    } else {
        assert(s.take(n) =~= Seq::<char>::empty());
    }
}

/// A line is shown whole, without its line end.
pub proof fn lines_are_shown_whole(b: Buffer, line: int, held: Seq<char>)
    requires
        0 <= line < b.lines@.len(),
        b.lines@[line].text@ == held || b.lines@[line].text@ == held.push('\n')
            || b.lines@[line].text@ == held.push('\r').push('\n'),
        forall|i: int| 0 <= i < held.len() ==> #[trigger] held[i] != '\n' && held[i] != '\r',
    ensures
        buffer::content(b, line) == held,
{
    let s: Seq<char> = b.lines@[line].text@;
    let n: int = held.len() as int;
    nothing_to_take_out(s, n);
    assert(s.take(n) =~= held);
    if s == held {
        assert(buffer::without_returns(s, n) == held);
    } else if s == held.push('\n') {
        assert(s[n] == '\n');
        assert(buffer::without_returns(s, n + 1) == held.push('\n'));
        assert(held.push('\n').drop_last() =~= held);
    } else {
        assert(s[n] == '\r' && s[n + 1] == '\n');
        assert(buffer::without_returns(s, n + 1) == held);
        assert(buffer::without_returns(s, n + 2) == held.push('\n'));
        assert(held.push('\n').drop_last() =~= held);
    }
}

/// The background of the text is told apart from a selection and from the caret's line, as far as
/// the background of the theme is.
pub proof fn the_text_has_its_own_background(focused: bool, theme: Theme)
    ensures
        theme.background != theme.cursor_line_bg ==> looks::text_bg(focused, theme)
            != theme.cursor_line_bg,
        theme.background != theme.selection_bg ==> looks::text_bg(focused, theme)
            != theme.selection_bg,
{
}

proof fn one_cell_each(s: Seq<char>, tab_width: int, n: int)
    requires
        0 <= n <= s.len(),
        forall|i: int| 0 <= i < n ==> ' ' <= #[trigger] s[i] <= '~',
    ensures
        spans::display_col(s, tab_width, n) == n,
    decreases n,
{
    if n > 0 {
        one_cell_each(s, tab_width, n - 1);
    }
}

/// The caret stands behind the border, the line numbers and the bar, as far to the right and as far
/// down as its character and its line are from the first ones in sight.
pub proof fn the_caret_stands_at_its_place(b: Buffer, area: Rect, tab_width: int, held: Seq<char>)
    requires
        b.cursor_line < b.lines@.len(),
        b.lines@[b.cursor_line as int].text@ == held.push('\n'),
        forall|i: int| 0 <= i < held.len() ==> ' ' <= #[trigger] held[i] <= '~',
        b.viewport.offset_col <= b.cursor_col <= held.len(),
        b.viewport.offset_line <= b.cursor_line,
        held.len() <= usize::MAX,
        area.x + 1 + pane::number_width(b) + 4 + b.cursor_col <= u16::MAX,
        area.y + 1 + b.cursor_line <= u16::MAX,
    ensures
        pane::caret_cell(b, area, tab_width).x == area.x + 1 + pane::number_width(b) + 4 + (
        b.cursor_col - b.viewport.offset_col),
        pane::caret_cell(b, area, tab_width).y == area.y + 1 + (b.cursor_line
            - b.viewport.offset_line),
{
    assert(held.push('\n').drop_last() =~= held);
    assert(pane::caret_text(b) == held);
    one_cell_each(held, tab_width, b.cursor_col as int);
    one_cell_each(held, tab_width, b.viewport.offset_col as int);
}

/// A line that holds what it held when it was analysed has the ranges of its place in the analysis.
pub proof fn unchanged_lines_keep_their_colors(
    b: Buffer,
    s: HighlightSnapshot,
    i: int,
    ranges: Vec<Segment>,
)
    requires
        0 <= i < b.lines@.len(),
        i < s.line_hashes@.len(),
        i < s.per_line@.len(),
        s.line_map is None,
        s.line_hashes@[i] == b.lines@[i].hash,
        s.per_line@[i] == Ok::<Vec<Segment>, buffer::SegmentMapError>(ranges),
    ensures
        buffer::segments_of(b, Some(s), i) == Some(ranges@),
{
}

/// A line that has moved since has the ranges of where it was.
pub proof fn moved_lines_take_their_colors_along(
    b: Buffer,
    s: HighlightSnapshot,
    map: Vec<Option<usize>>,
    i: int,
    ranges: Vec<Segment>,
)
    requires
        0 <= i < b.lines@.len(),
        i < map@.len(),
        s.line_map == Some(map),
        map@[i] is Some,
        map@[i]->0 < s.line_hashes@.len(),
        map@[i]->0 < s.per_line@.len(),
        s.line_hashes@[map@[i]->0 as int] == b.lines@[i].hash,
        s.per_line@[map@[i]->0 as int] == Ok::<Vec<Segment>, buffer::SegmentMapError>(ranges),
    ensures
        buffer::segments_of(b, Some(s), i) == Some(ranges@),
{
}

} // verus!
