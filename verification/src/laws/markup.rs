//! What marks in a document stand for.

use vstd::prelude::*;

use crate::artifacts_popup::spans;
use crate::artifacts_popup::tables;
use crate::columns;
use crate::laws::labels;
use crate::laws::texts;
use crate::style;
use crate::style::Piece;
use crate::style::Style;
use crate::style::Theme;
use crate::text;

verus! {

proof fn joined_splits(cells: Seq<Seq<char>>)
    requires
        cells.len() > 0,
        forall|i: int| 0 <= i < cells.len() ==> labels::lacks(#[trigger] cells[i], '|'),
    ensures
        text::split_at_char(text::joined(cells, seq!['|']), '|') == cells,
    decreases cells.len(),
{
    if cells.len() == 1 {
        assert(cells =~= seq![cells[0]]);
        reveal_with_fuel(text::joined, 2);
        assert(text::joined(cells, seq!['|']) =~= cells[0]);
        texts::texts_without_the_character_are_one_part(cells[0], '|');
    } else {
        let more: Seq<Seq<char>> = cells.skip(1);
        assert(cells =~= seq![cells[0]] + more);
        assert forall|i: int| 0 <= i < more.len() implies labels::lacks(#[trigger] more[i], '|') by {
            assert(more[i] == cells[i + 1]);
        }
        joined_splits(more);
        text::joined_from_front(cells[0], more, seq!['|']);
        texts::texts_split_at_every_separator(cells[0], '|', text::joined(more, seq!['|']));
    }
}

proof fn joined_ends(cells: Seq<Seq<char>>)
    requires
        cells.len() > 0,
        cells[0].len() > 0,
        cells.last().len() > 0,
    ensures
        text::joined(cells, seq!['|']).len() > 0,
        text::joined(cells, seq!['|'])[0] == cells[0][0],
        text::joined(cells, seq!['|']).last() == cells.last().last(),
{
    if cells.len() == 1 {
        assert(cells =~= seq![cells[0]]);
        reveal_with_fuel(text::joined, 2);
        assert(text::joined(cells, seq!['|']) =~= cells[0]);
    } else {
        let more: Seq<Seq<char>> = cells.skip(1);
        assert(cells =~= seq![cells[0]] + more);
        text::joined_from_front(cells[0], more, seq!['|']);
        assert(text::joined(cells, seq!['|']) == text::joined(cells.drop_last(), seq!['|'])
            + seq!['|'] + cells.last());
    }
}

/// The cells of a row of a table are what stands between its bars, without blanks around it.
pub proof fn cells_stand_between_bars(cells: Seq<Seq<char>>, i: int)
    requires
        0 <= i < cells.len(),
        forall|j: int| 0 <= j < cells.len() ==> labels::lacks(#[trigger] cells[j], '|'),
        cells[0].len() > 0,
        cells.last().len() > 0,
    ensures
        tables::cells_of(seq!['|'] + text::joined(cells, seq!['|']) + seq!['|']).len()
            == cells.len(),
        tables::cells_of(seq!['|'] + text::joined(cells, seq!['|']) + seq!['|'])[i]
            == text::trimmed(cells[i]),
{
    let inner: Seq<char> = text::joined(cells, seq!['|']);
    let s: Seq<char> = seq!['|'] + inner + seq!['|'];
    joined_splits(cells);
    joined_ends(cells);
    assert(labels::lacks(cells[0], '|') && labels::lacks(cells.last(), '|'));
    texts::nothing_else_is_trimmed(s);
    assert(s.subrange(1, s.len() as int) =~= inner + seq!['|']);
    assert((inner + seq!['|'])[0] == inner[0]);
    assert(inner[0] != '|') by {
        assert(cells[0][0] != '|');
    }
    assert(inner.last() != '|') by {
        assert(cells.last()[cells.last().len() - 1] != '|');
    }
    reveal_with_fuel(text::without_leading, 3);
    assert(text::without_leading(s, '|') == inner + seq!['|']);
    reveal_with_fuel(text::without_trailing, 3);
    assert((inner + seq!['|']).subrange(0, inner.len() as int) =~= inner);
    assert(text::without_trailing(inner + seq!['|'], '|') == inner);
}

/// A line of dashes between the bars parts the heading of a table from its rows.
pub proof fn dashes_part_the_heading(cells: Seq<Seq<char>>)
    requires
        cells.len() > 0,
        forall|i: int| 0 <= i < cells.len() ==> (#[trigger] cells[i]).len() > 0,
        forall|i: int, j: int|
            0 <= i < cells.len() && 0 <= j < cells[i].len() ==> #[trigger] cells[i][j] == '-',
    ensures
        tables::separator(cells),
{
    assert forall|i: int| 0 <= i < cells.len() implies tables::rule_cell(#[trigger] cells[i]) by {
        let c: Seq<char> = cells[i];
        assert(c[0] == '-' && c[c.len() - 1] == '-');
        texts::nothing_else_is_trimmed(c);
    }
}

/// A row with a letter or a digit in one of its cells is no such line.
pub proof fn words_do_not_part(cells: Seq<Seq<char>>, i: int)
    requires
        0 <= i < cells.len(),
        labels::bare(cells[i]),
        text::alnum(cells[i][0]),
    ensures
        !tables::separator(cells),
{
    texts::nothing_else_is_trimmed(cells[i]);
    assert(!tables::rule_cell(cells[i]));
}

/// A row of a table shows every cell that fits into its column, as it is.
pub proof fn rows_show_their_cells(
    cells: Seq<Seq<char>>,
    widths: Seq<int>,
    look: Style,
    theme: Theme,
    n: int,
    k: int,
) -> (at: int)
    requires
        0 <= k < n,
        k < cells.len(),
        columns::text_columns(cells[k]) <= widths[k],
    ensures
        0 <= at < tables::row_pieces(cells, widths, look, theme, n).len(),
        tables::row_pieces(cells, widths, look, theme, n)[at] == style::piece(cells[k], look),
    decreases n,
{
    let before: Seq<Piece> = tables::row_pieces(cells, widths, look, theme, n - 1);
    if k == n - 1 {
        let own: Seq<Piece> = tables::cell_pieces(cells[k], widths[k], look, theme);
        assert(own[1] == style::piece(cells[k], look));
        before.len() + 1int
    } else {
        rows_show_their_cells(cells, widths, look, theme, n - 1, k)
    }
}

proof fn body_row(rows: Seq<Seq<Seq<char>>>, widths: Seq<int>, theme: Theme, n: int, r: int)
    requires
        2 <= r < n,
    ensures
        tables::body_rows(rows, widths, theme, n).len() == n - 2,
        tables::body_rows(rows, widths, theme, n)[r - 2] == tables::row_pieces(
            rows[r],
            widths,
            Style::plain().fg(theme.foreground),
            theme,
            widths.len() as int,
        ),
    decreases n,
{
    if r < n - 1 {
        body_row(rows, widths, theme, n - 1, r);
    } else if n > 3 {
        body_row(rows, widths, theme, n - 1, 2);
    } else {
        assert(tables::body_rows(rows, widths, theme, 2).len() == 0);
    }
}

/// A table is shown between lines: its heading, and below it every row in its order.
pub proof fn tables_show_every_row(table: Seq<Seq<char>>, theme: Theme, width: int, r: int)
    requires
        2 <= r < table.len(),
        tables::separator(tables::cells_of(table[1])),
        tables::column_count(tables::rows_of(table)) > 0,
    ensures
        ({
            let rows: Seq<Seq<Seq<char>>> = tables::rows_of(table);
            let cols: int = tables::column_count(rows);
            let widths: Seq<int> = tables::column_widths(rows, cols, width);
            let shown: Seq<Seq<Piece>> = tables::table_rows(table, theme, width);
            &&& shown.len() == table.len() + 2
            &&& shown[0] == shown[2] && shown[0] == shown.last()
            &&& exists|look: Style|
                shown[1] == #[trigger] tables::row_pieces(
                    tables::cells_of(table[0]),
                    widths,
                    look,
                    theme,
                    cols,
                )
            &&& shown[r + 1] == tables::row_pieces(
                tables::cells_of(table[r]),
                widths,
                Style::plain().fg(theme.foreground),
                theme,
                cols,
            )
        }),
{
    reveal(tables::table_rows);
    let rows: Seq<Seq<Seq<char>>> = tables::rows_of(table);
    let cols: int = tables::column_count(rows);
    let widths: Seq<int> = tables::column_widths(rows, cols, width);
    body_row(rows, widths, theme, table.len() as int, r);
}

proof fn widest_holds(rows: Seq<Seq<Seq<char>>>, i: int, n: int, least: int, r: int)
    requires
        2 <= r < n,
        0 <= i < rows[r].len(),
    ensures
        columns::text_columns(rows[r][i]) <= tables::widest(rows, i, 2, n, least),
    decreases n,
{
    if r < n - 1 {
        widest_holds(rows, i, n - 1, least, r);
    }
}

proof fn widest_is_least(rows: Seq<Seq<Seq<char>>>, i: int, n: int, least: int)
    ensures
        least <= tables::widest(rows, i, 2, n, least),
    decreases n,
{
    if n > 2 {
        widest_is_least(rows, i, n - 1, least);
    }
}

/// A column is as wide as the widest of its cells, where there is room for that.
pub proof fn columns_are_as_wide_as_their_cells(
    rows: Seq<Seq<Seq<char>>>,
    cols: int,
    width: int,
    i: int,
    r: int,
)
    requires
        0 <= i < cols,
        0 <= r < rows.len(),
        r != 1,
        i < rows[r].len(),
        tables::natural(rows, i) <= 6,
    ensures
        columns::text_columns(rows[r][i]) <= tables::column_widths(rows, cols, width)[i],
{
    let least: int = if i < rows[0].len() {
        text::max_int(3, columns::text_columns(rows[0][i]) as int)
    } else {
        3
    };
    if r >= 2 {
        widest_holds(rows, i, rows.len() as int, least, r);
    } else {
        widest_is_least(rows, i, rows.len() as int, least);
    }
}

/// What stands between two stars on each side is shown in bold letters, without the stars.
pub proof fn double_stars_are_bold(inner: Seq<char>, rest: Seq<char>, base: Style, theme: Theme)
    requires
        labels::lacks(inner, '*'),
    ensures
        spans::inline_pieces(seq!['*', '*'] + (inner + seq!['*', '*'] + rest), base, theme) == seq![
            style::piece(inner, base.fg(theme.hl.heading).bold()),
        ] + spans::inline_pieces(rest, base, theme),
{
    reveal_strlit("**");
    let s: Seq<char> = seq!['*', '*'] + (inner + seq!['*', '*'] + rest);
    assert("**"@ =~= seq!['*', '*']);
    assert(text::tail(s, 2) =~= inner + "**"@ + rest);
    texts::texts_part_at_their_mark(inner, "**"@, rest);
    texts::texts_are_found_where_they_stand_first(text::tail(s, 2), "**"@);
    let k: int = text::find(text::tail(s, 2), "**"@)->0;
    assert(text::head(text::tail(s, 2), k).len() == k);
    assert(k == inner.len());
    assert(s.subrange(0, 2) =~= "**"@);
    assert(text::tail(s, k + 4) =~= rest);
}

/// What stands between single stars is shown in italics, without the stars.
pub proof fn single_stars_are_italic(inner: Seq<char>, rest: Seq<char>, base: Style, theme: Theme)
    requires
        inner.len() > 0,
        labels::lacks(inner, '*'),
    ensures
        spans::inline_pieces(seq!['*'] + (inner + seq!['*'] + rest), base, theme) == seq![
            style::piece(inner, base.fg(theme.hl.emphasis).italic()),
        ] + spans::inline_pieces(rest, base, theme),
{
    reveal_strlit("**");
    let s: Seq<char> = seq!['*'] + (inner + seq!['*'] + rest);
    assert(s[1] == inner[0]);
    if text::starts(s, "**"@) {
        assert(s.subrange(0, 2)[1] == s[1]);
        assert("**"@[1] == '*');
    }
    assert(text::tail(s, 1) =~= inner + seq!['*'] + rest);
    texts::characters_are_found_first(inner, '*', rest);
    assert(text::head(text::tail(s, 1), inner.len() as int) =~= inner);
    assert(text::tail(s, inner.len() + 2int) =~= rest);
}

/// Code between ticks is shown with its ticks, as it is.
pub proof fn code_between_ticks_is_shown(
    inner: Seq<char>,
    rest: Seq<char>,
    base: Style,
    theme: Theme,
)
    requires
        labels::lacks(inner, '`'),
    ensures
        ({
            let shown: Seq<Piece> = spans::inline_pieces(
                seq!['`'] + (inner + seq!['`'] + rest),
                base,
                theme,
            );
            &&& shown.len() > 0
            &&& shown[0].text == seq!['`'] + inner + seq!['`']
            &&& shown.skip(1) == spans::inline_pieces(rest, base, theme)
        }),
{
    reveal_strlit("`");
    let s: Seq<char> = seq!['`'] + (inner + seq!['`'] + rest);
    assert(text::tail(s, 1) =~= inner + seq!['`'] + rest);
    texts::characters_are_found_first(inner, '`', rest);
    assert(text::head(text::tail(s, 1), inner.len() as int) =~= inner);
    assert(text::tail(s, inner.len() + 2int) =~= rest);
    assert("`"@ + inner + "`"@ =~= seq!['`'] + inner + seq!['`']);
    let shown: Seq<Piece> = spans::inline_pieces(s, base, theme);
    assert(shown.skip(1) =~= spans::inline_pieces(rest, base, theme));
}

/// A formula between dollar signs is shown with them, in italics.
pub proof fn formulas_in_a_line_are_shown(
    inner: Seq<char>,
    rest: Seq<char>,
    base: Style,
    theme: Theme,
    i: int,
)
    requires
        labels::bare(inner),
        labels::lacks(inner, '$'),
        0 <= i < inner.len(),
        text::digit(inner[i]) || inner[i] == '=' || inner[i] == '+' || inner[i] == '^',
    ensures
        ({
            let shown: Seq<Piece> = spans::inline_pieces(
                seq!['$'] + (inner + seq!['$'] + rest),
                base,
                theme,
            );
            &&& shown.len() > 0
            &&& shown[0].text == seq!['$'] + inner + seq!['$']
            &&& shown.skip(1) == spans::inline_pieces(rest, base, theme)
        }),
{
    reveal_strlit("$");
    let s: Seq<char> = seq!['$'] + (inner + seq!['$'] + rest);
    assert(text::tail(s, 1) =~= inner + seq!['$'] + rest);
    texts::characters_are_found_first(inner, '$', rest);
    assert(text::head(text::tail(s, 1), inner.len() as int) =~= inner);
    texts::nothing_else_is_trimmed(inner);
    assert(spans::math_char(inner[i]));
    assert(spans::inline_math(inner));
    assert(text::tail(s, inner.len() + 2int) =~= rest);
    assert("$"@ + inner + "$"@ =~= seq!['$'] + inner + seq!['$']);
    let shown: Seq<Piece> = spans::inline_pieces(s, base, theme);
    assert(shown.skip(1) =~= spans::inline_pieces(rest, base, theme));
}

} // verus!
