//! Tables in marked-up text.

use vstd::prelude::*;

use crate::artifacts_popup::code;
use crate::artifacts_popup::lines;
use crate::columns;
use crate::fit;
use crate::style;
use crate::style::Line;
use crate::style::Piece;
use crate::style::Span;
use crate::style::Style;
use crate::style::Theme;
use crate::text;

verus! {

/// How often `c` stands among the first `n` characters.
pub open spec fn occurrences(s: Seq<char>, c: char, n: int) -> nat
    decreases n,
{
    if n <= 0 {
        0
    } else {
        occurrences(s, c, n - 1) + (if s[n - 1] == c {
            1nat
        } else {
            0nat
        })
    }
}

fn count_char(s: &str, c: char) -> (r: usize)
    ensures
        r == occurrences(s@, c, s@.len() as int),
{
    let v: Vec<char> = text::chars_of(s);
    let total: usize = v.len();
    let mut n: usize = 0;
    let mut i: usize = 0;
    while i < total
        invariant
            i <= total == v@.len(),
            v@ == s@,
            n <= i,
            n == occurrences(s@, c, i as int),
        decreases total - i,
    {
        if v[i] == c {
            n += 1;
        }
        i += 1;
    }
    n
}

/// Whether a line could belong to a table: bars at both ends and one between them.
pub open spec fn candidate(s: Seq<char>) -> bool {
    text::starts(s, "|"@) && text::ends(s, "|"@) && occurrences(s, '|', s.len() as int) >= 3
}

pub fn is_markdown_table_candidate(s: &str) -> (r: bool)
    ensures
        r == candidate(s@),
{
    text::starts_with(s, "|") && text::ends_with(s, "|") && count_char(s, '|') >= 3
}

/// Every part, trimmed.
pub open spec fn all_trimmed(parts: Seq<Seq<char>>) -> Seq<Seq<char>> {
    Seq::new(parts.len(), |i: int| text::trimmed(parts[i]))
}

/// The cells of a line.
pub open spec fn cells_of(s: Seq<char>) -> Seq<Seq<char>> {
    all_trimmed(
        text::split_at_char(
            text::without_trailing(text::without_leading(text::trimmed(s), '|'), '|'),
            '|',
        ),
    )
}

pub fn split_markdown_table_cells(s: &str) -> (r: Vec<String>)
    ensures
        text::texts(r@) == cells_of(s@),
{
    broadcast use text::group_texts;

    let bare: String = text::trim(s);
    let left: String = text::trim_leading(bare.as_str(), '|');
    let both: String = text::trim_trailing(left.as_str(), '|');
    let parts: Vec<String> = text::split_char(both.as_str(), '|');
    let ghost all: Seq<Seq<char>> = all_trimmed(text::texts(parts@));
    let mut out: Vec<String> = Vec::new();
    let mut i: usize = 0;
    assert(all.take(0) =~= text::texts(out@));
    while i < parts.len()
        invariant
            i <= parts@.len(),
            all == all_trimmed(text::texts(parts@)),
            text::texts(out@) == all.take(i as int),
        decreases parts@.len() - i,
    {
        broadcast use text::group_texts;

        assert(text::texts(parts@)[i as int] == parts@[i as int]@);
        out.push(text::trim(parts[i].as_str()));
        i += 1;
        assert(all.take(i as int) =~= all.take(i - 1).push(all[i - 1]));
    }
    assert(all.take(i as int) =~= all);
    out
}

/// Whether a cell is a rule: dashes, colons and spaces only, and some of them.
pub open spec fn rule_cell(s: Seq<char>) -> bool {
    let t: Seq<char> = text::trimmed(s);
    t.len() > 0 && forall|i: int|
        0 <= i < t.len() ==> (#[trigger] t[i] == '-' || t[i] == ':' || t[i] == ' ')
}

fn is_rule_cell(s: &str) -> (r: bool)
    ensures
        r == rule_cell(s@),
{
    let t: String = text::trim(s);
    let v: Vec<char> = text::chars_of(t.as_str());
    let total: usize = v.len();
    let mut i: usize = 0;
    while i < total
        invariant
            i <= total == v@.len(),
            v@ == text::trimmed(s@),
            forall|k: int| 0 <= k < i ==> (#[trigger] v@[k] == '-' || v@[k] == ':' || v@[k] == ' '),
        decreases total - i,
    {
        if v[i] != '-' && v[i] != ':' && v[i] != ' ' {
            return false;
        }
        i += 1;
    }
    total > 0
}

/// Whether a line stands between the head of a table and its rows.
pub open spec fn separator(cells: Seq<Seq<char>>) -> bool {
    cells.len() > 0 && forall|i: int| 0 <= i < cells.len() ==> rule_cell(#[trigger] cells[i])
}

pub fn is_markdown_table_separator(cells: &Vec<String>) -> (r: bool)
    ensures
        r == separator(text::texts(cells@)),
{
    let total: usize = cells.len();
    let mut i: usize = 0;
    while i < total
        invariant
            i <= total == cells@.len(),
            forall|k: int| 0 <= k < i ==> rule_cell(#[trigger] text::texts(cells@)[k]),
        decreases total - i,
    {
        assert(text::texts(cells@)[i as int] == cells@[i as int]@);
        if !is_rule_cell(cells[i].as_str()) {
            return false;
        }
        i += 1;
    }
    total > 0
}

/// A text cut to so many columns, with a mark where something is missing.
pub open spec fn clipped(s: Seq<char>, width: int) -> Seq<char> {
    if columns::text_columns(s) <= width {
        s
    } else {
        text::head(s, fit::fitting(s, text::monus(width, 1), 0, 0)) + "…"@
    }
}

pub fn truncate_to_width(s: &str, width: usize) -> (r: String)
    ensures
        r@ == clipped(s@, width as int),
{
    if columns::text_width(s) <= width {
        return text::copy(s);
    }
    let kept: String = text::head_of(s, fit::fitting_count(s, text::minus(width, 1)));
    text::cat2(kept.as_str(), "…")
}

/// The lines of a table, each in its cells.
pub open spec fn rows_of(table: Seq<Seq<char>>) -> Seq<Seq<Seq<char>>> {
    Seq::new(table.len(), |i: int| cells_of(table[i]))
}

/// The most cells that a row of the first `n` has, or `least`.
pub open spec fn most_cells(rows: Seq<Seq<Seq<char>>>, from: int, n: int, least: int) -> int
    decreases n - from,
{
    if n <= from {
        least
    } else {
        text::max_int(most_cells(rows, from, n - 1, least), rows[n - 1].len() as int)
    }
}

/// How many columns a table has.
pub open spec fn column_count(rows: Seq<Seq<Seq<char>>>) -> int {
    most_cells(rows, 2, rows.len() as int, rows[0].len() as int)
}

/// The columns that the widest of the cells at place `i` takes, and at least `least`.
pub open spec fn widest(rows: Seq<Seq<Seq<char>>>, i: int, from: int, n: int, least: int) -> int
    decreases n - from,
{
    if n <= from {
        least
    } else {
        let before: int = widest(rows, i, from, n - 1, least);
        if i < rows[n - 1].len() {
            text::max_int(before, columns::text_columns(rows[n - 1][i]) as int)
        } else {
            before
        }
    }
}

/// The width that a column would like to have: at least three.
pub open spec fn natural(rows: Seq<Seq<Seq<char>>>, i: int) -> int {
    widest(
        rows,
        i,
        2,
        rows.len() as int,
        if i < rows[0].len() {
            text::max_int(3, columns::text_columns(rows[0][i]) as int)
        } else {
            3
        },
    )
}

/// The room that the cells share.
pub open spec fn shared(cols: int, width: int) -> int {
    text::max_int(text::monus(width, cols * 3 + 1), cols)
}

/// The width of a column before the room that is left is given away.
pub open spec fn capped(rows: Seq<Seq<Seq<char>>>, i: int, cols: int, width: int) -> int {
    text::min_int(natural(rows, i), text::max_int(shared(cols, width) / cols, 6))
}

/// The widths of the first `n` columns together.
pub open spec fn used(rows: Seq<Seq<Seq<char>>>, cols: int, width: int, n: int) -> int
    decreases n,
{
    if n <= 0 {
        0
    } else {
        used(rows, cols, width, n - 1) + capped(rows, n - 1, cols, width)
    }
}

/// The widths of the columns: the last one takes the room that is left.
pub open spec fn column_widths(rows: Seq<Seq<Seq<char>>>, cols: int, width: int) -> Seq<int> {
    Seq::new(
        cols as nat,
        |i: int|
            capped(rows, i, cols, width) + (if i == cols - 1 {
                text::monus(shared(cols, width), used(rows, cols, width, cols))
            } else {
                0
            }),
    )
}

/// Rows of cells as values.
pub open spec fn cell_rows(v: Seq<Vec<String>>) -> Seq<Seq<Seq<char>>> {
    Seq::new(v.len(), |i: int| text::texts(v[i]@))
}

fn split_rows(table: &Vec<String>) -> (r: Vec<Vec<String>>)
    ensures
        cell_rows(r@) == rows_of(text::texts(table@)),
{
    let ghost all: Seq<Seq<Seq<char>>> = rows_of(text::texts(table@));
    let mut out: Vec<Vec<String>> = Vec::new();
    let mut i: usize = 0;
    assert(cell_rows(out@) =~= all.take(0));
    while i < table.len()
        invariant
            i <= table@.len(),
            all == rows_of(text::texts(table@)),
            cell_rows(out@) == all.take(i as int),
        decreases table@.len() - i,
    {
        assert(text::texts(table@)[i as int] == table@[i as int]@);
        let ghost before: Seq<Vec<String>> = out@;
        out.push(split_markdown_table_cells(table[i].as_str()));
        i += 1;
        assert(cell_rows(out@) =~= cell_rows(before).push(all[i - 1]));
        assert(all.take(i as int) =~= all.take(i - 1).push(all[i - 1]));
    }
    assert(all.take(i as int) =~= all);
    out
}

fn count_columns(rows: &Vec<Vec<String>>) -> (r: usize)
    requires
        rows@.len() >= 2,
    ensures
        r == column_count(cell_rows(rows@)),
{
    let ghost all: Seq<Seq<Seq<char>>> = cell_rows(rows@);
    let mut most: usize = rows[0].len();
    assert(all[0].len() == most);
    let mut i: usize = 2;
    while i < rows.len()
        invariant
            2 <= i <= rows@.len(),
            all == cell_rows(rows@),
            most == most_cells(all, 2, i as int, all[0].len() as int),
        decreases rows@.len() - i,
    {
        assert(all[i as int].len() == rows@[i as int]@.len());
        most = text::max_of(most, rows[i].len());
        i += 1;
    }
    most
}

fn natural_width(rows: &Vec<Vec<String>>, c: usize) -> (r: usize)
    requires
        rows@.len() >= 2,
    ensures
        r == natural(cell_rows(rows@), c as int),
{
    let ghost all: Seq<Seq<Seq<char>>> = cell_rows(rows@);
    assert(all[0].len() == rows@[0]@.len());
    let mut w: usize = 3;
    if c < rows[0].len() {
        assert(all[0][c as int] == rows@[0]@[c as int]@);
        w = text::max_of(3, columns::text_width(rows[0][c].as_str()));
    }
    let ghost least: int = w as int;
    let mut i: usize = 2;
    while i < rows.len()
        invariant
            2 <= i <= rows@.len(),
            all == cell_rows(rows@),
            w == widest(all, c as int, 2, i as int, least),
        decreases rows@.len() - i,
    {
        assert(all[i as int].len() == rows@[i as int]@.len());
        if c < rows[i].len() {
            assert(all[i as int][c as int] == rows@[i as int]@[c as int]@);
            w = text::max_of(w, columns::text_width(rows[i][c].as_str()));
        }
        i += 1;
    }
    w
}

/// Widths as integers.
pub open spec fn ints(v: Seq<usize>) -> Seq<int> {
    Seq::new(v.len(), |i: int| v[i] as int)
}

fn room_for(cols: usize, width: usize) -> (r: usize)
    ensures
        r == shared(cols as int, width as int),
{
    let left: usize = if cols <= width / 3 && width - cols * 3 >= 1 {
        width - cols * 3 - 1
    } else {
        0
    };
    text::max_of(left, cols)
}

fn share_room(rows: &Vec<Vec<String>>, cols: usize, width: usize) -> (r: Vec<usize>)
    requires
        rows@.len() >= 2,
        cols >= 1,
    ensures
        ints(r@) == column_widths(cell_rows(rows@), cols as int, width as int),
{
    let ghost all: Seq<Seq<Seq<char>>> = cell_rows(rows@);
    let ghost w: int = width as int;
    let room: usize = room_for(cols, width);
    let most: usize = text::max_of(room / cols, 6);
    let mut out: Vec<usize> = Vec::new();
    let mut sum: usize = 0;
    let mut i: usize = 0;
    while i < cols
        invariant
            i <= cols,
            rows@.len() >= 2,
            all == cell_rows(rows@),
            w == width,
            room == shared(cols as int, w),
            cols >= 1,
            most == text::max_int(shared(cols as int, w) / (cols as int), 6),
            out@.len() == i,
            forall|k: int| 0 <= k < i ==> #[trigger] out@[k] == capped(all, k, cols as int, w),
            sum == text::min_int(used(all, cols as int, w, i as int), usize::MAX as int),
            used(all, cols as int, w, i as int) >= 0,
        decreases cols - i,
    {
        let one: usize = text::min_of(natural_width(rows, i), most);
        out.push(one);
        sum = sum.saturating_add(one);
        i += 1;
    }
    let last: usize = out[cols - 1];
    let spare: usize = text::minus(room, sum);
    proof {
        if sum < room {
            assert(used(all, cols as int, w, cols as int) == sum);
            used_covers(all, cols as int, w, cols as int);
        }
    }
    out.set(cols - 1, last + spare);
    assert(ints(out@) =~= column_widths(all, cols as int, w));
    out
}

proof fn widest_is_not_less(rows: Seq<Seq<Seq<char>>>, i: int, from: int, n: int, least: int)
    ensures
        widest(rows, i, from, n, least) >= least,
    decreases n - from,
{
    if n > from {
        widest_is_not_less(rows, i, from, n - 1, least);
    }
}

/// The columns together take at least what the last of them takes.
proof fn used_covers(rows: Seq<Seq<Seq<char>>>, cols: int, width: int, n: int)
    requires
        cols >= 1,
        n >= 1,
    ensures
        used(rows, cols, width, n) >= capped(rows, n - 1, cols, width),
        used(rows, cols, width, n - 1) >= 0,
    decreases n,
{
    reveal_with_fuel(used, 2);
    if n >= 2 {
        used_covers(rows, cols, width, n - 1);
        widest_is_not_less(
            rows,
            n - 2,
            2,
            rows.len() as int,
            if n - 2 < rows[0].len() {
                text::max_int(3, columns::text_columns(rows[0][n - 2]) as int)
            } else {
                3
            },
        );
    }
}

/// The widths of the first `n` columns.
pub open spec fn widths_upto(w: Seq<int>, n: int) -> int
    decreases n,
{
    if n <= 0 {
        0
    } else {
        widths_upto(w, n - 1) + w[n - 1]
    }
}

proof fn widths_are_used(rows: Seq<Seq<Seq<char>>>, cols: int, width: int, n: int)
    requires
        0 <= n < cols,
    ensures
        widths_upto(column_widths(rows, cols, width), n) == used(rows, cols, width, n),
    decreases n,
{
    if n > 0 {
        widths_are_used(rows, cols, width, n - 1);
    }
}

/// Where the columns of a table fit in the room, they fill it.
pub proof fn columns_fill_the_room(rows: Seq<Seq<Seq<char>>>, cols: int, width: int)
    requires
        cols >= 1,
        used(rows, cols, width, cols) <= shared(cols, width),
    ensures
        widths_upto(column_widths(rows, cols, width), cols) == shared(cols, width),
{
    widths_are_used(rows, cols, width, cols - 1);
}

/// The frame between rows.
pub open spec fn border(widths: Seq<int>, n: int) -> Seq<char>
    decreases n,
{
    if n <= 0 {
        "+"@
    } else {
        border(widths, n - 1) + text::fill(
            '-',
            text::min_int(widths[n - 1] + 2, usize::MAX as int) as nat,
        ) + "+"@
    }
}

pub fn format_table_border(widths: &Vec<usize>) -> (r: String)
    ensures
        r@ == border(ints(widths@), widths@.len() as int),
{
    let mut out: String = text::copy("+");
    let mut i: usize = 0;
    while i < widths.len()
        invariant
            i <= widths@.len(),
            out@ == border(ints(widths@), i as int),
        decreases widths@.len() - i,
    {
        let dashes: String = text::filled('-', widths[i].saturating_add(2));
        out = text::cat3(out.as_str(), dashes.as_str(), "+");
        i += 1;
    }
    out
}

/// The bar between cells.
pub open spec fn bar(theme: Theme) -> Piece {
    style::piece("|"@, lines::label_style(theme))
}

/// One cell of a row and the bar behind it.
pub open spec fn cell_pieces(s: Seq<char>, width: int, look: Style, theme: Theme) -> Seq<Piece> {
    let cell: Seq<char> = clipped(s, width);
    seq![style::piece(" "@, look), style::piece(cell, look)] + style::if_any(
        text::fill(' ', text::monus(width, columns::text_columns(cell) as int) as nat),
        look,
    ) + seq![style::piece(" "@, look), bar(theme)]
}

/// The first `n` cells of a row.
pub open spec fn row_pieces(
    cells: Seq<Seq<char>>,
    widths: Seq<int>,
    look: Style,
    theme: Theme,
    n: int,
) -> Seq<Piece>
    decreases n,
{
    if n <= 0 {
        seq![bar(theme)]
    } else {
        row_pieces(cells, widths, look, theme, n - 1) + cell_pieces(
            text::part(cells, n - 1),
            widths[n - 1],
            look,
            theme,
        )
    }
}

fn push_cell(spans: &mut Vec<Span>, s: &str, width: usize, look: Style, theme: &Theme)
    ensures
        style::pieces(final(spans)@) == style::pieces(old(spans)@) + cell_pieces(
            s@,
            width as int,
            look,
            *theme,
        ),
{
    let ghost before: Seq<Piece> = style::pieces(spans@);
    let cell: String = truncate_to_width(s, width);
    let pad: String = text::filled(' ', text::minus(width, columns::text_width(cell.as_str())));
    let ghost kept: Seq<char> = cell@;
    let ghost space: Seq<char> = pad@;
    let mut more: Vec<Span> = vec![style::span(" ", look), style::styled(cell, look)];
    assert(style::pieces(more@) =~= seq![style::piece(" "@, look), style::piece(kept, look)]);
    style::push_if_any(&mut more, pad, look);
    let mut rest: Vec<Span> = vec![
        style::span(" ", look),
        style::span("|", lines::label_style(*theme)),
    ];
    assert(style::pieces(rest@) =~= seq![style::piece(" "@, look), bar(*theme)]);
    let ghost mid: Seq<Span> = more@;
    let ghost end: Seq<Span> = rest@;
    more.append(&mut rest);
    assert(style::pieces(more@) =~= style::pieces(mid) + style::pieces(end));
    let ghost all: Seq<Span> = more@;
    let ghost first: Seq<Span> = spans@;
    spans.append(&mut more);
    assert(style::pieces(spans@) =~= style::pieces(first) + style::pieces(all));
}

pub fn table_row_line(cells: &Vec<String>, widths: &Vec<usize>, look: Style, theme: &Theme) -> (r:
    Line)
    ensures
        r@ == row_pieces(
            text::texts(cells@),
            ints(widths@),
            look,
            *theme,
            widths@.len() as int,
        ),
{
    let mut spans: Vec<Span> = vec![style::span("|", lines::label_style(*theme))];
    assert(style::pieces(spans@) =~= seq![bar(*theme)]);
    let mut i: usize = 0;
    while i < widths.len()
        invariant
            i <= widths@.len(),
            style::pieces(spans@) == row_pieces(
                text::texts(cells@),
                ints(widths@),
                look,
                *theme,
                i as int,
            ),
        decreases widths@.len() - i,
    {
        let cell: String = text::part_of(cells, i);
        push_cell(&mut spans, cell.as_str(), widths[i], look, theme);
        i += 1;
    }
    Line { spans }
}

/// The first `n` lines, each as code.
pub open spec fn as_code(table: Seq<Seq<char>>, theme: Theme, width: int, n: int) -> Seq<Seq<Piece>>
    decreases n,
{
    if n <= 0 {
        Seq::empty()
    } else {
        as_code(table, theme, width, n - 1) + code::unnumbered(table[n - 1], theme, width)
    }
}

/// The rows of the table up to the one at `n`.
pub open spec fn body_rows(
    rows: Seq<Seq<Seq<char>>>,
    widths: Seq<int>,
    theme: Theme,
    n: int,
) -> Seq<Seq<Piece>>
    decreases n,
{
    if n <= 2 {
        Seq::empty()
    } else {
        body_rows(rows, widths, theme, n - 1) + seq![
            row_pieces(
                rows[n - 1],
                widths,
                Style::plain().fg(theme.foreground),
                theme,
                widths.len() as int,
            ),
        ]
    }
}

/// A table with its frame.
pub open spec fn framed(rows: Seq<Seq<Seq<char>>>, theme: Theme, width: int) -> Seq<Seq<Piece>> {
    let cols: int = column_count(rows);
    if cols == 0 {
        seq![Seq::empty()]
    } else {
        let widths: Seq<int> = column_widths(rows, cols, width);
        let line: Seq<Piece> = seq![style::piece(border(widths, cols), lines::label_style(theme))];
        seq![line] + seq![
            row_pieces(rows[0], widths, lines::title_style(theme), theme, cols),
        ] + seq![line] + body_rows(rows, widths, theme, rows.len() as int) + seq![line]
    }
}

/// The lines of a table: framed where they are one, and else each as code.
#[verifier::opaque]
pub open spec fn table_rows(table: Seq<Seq<char>>, theme: Theme, width: int) -> Seq<Seq<Piece>> {
    if table.len() < 2 || !separator(cells_of(table[1])) {
        as_code(table, theme, width, table.len() as int)
    } else {
        framed(rows_of(table), theme, width)
    }
}

fn push_as_code(out: &mut Vec<Line>, table: &Vec<String>, theme: &Theme, width: usize)
    ensures
        style::rows(final(out)@) == style::rows(old(out)@) + as_code(
            text::texts(table@),
            *theme,
            width as int,
            table@.len() as int,
        ),
{
    broadcast use style::group_line_lists;

    let ghost before: Seq<Seq<Piece>> = style::rows(out@);
    let mut i: usize = 0;
    while i < table.len()
        invariant
            i <= table@.len(),
            style::rows(out@) == before + as_code(
                text::texts(table@),
                *theme,
                width as int,
                i as int,
            ),
        decreases table@.len() - i,
    {
        broadcast use style::group_line_lists;

        assert(text::texts(table@)[i as int] == table@[i as int]@);
        code::render_code_block_line(out, table[i].as_str(), theme, width);
        i += 1;
    }
}

fn push_framed(out: &mut Vec<Line>, rows: &Vec<Vec<String>>, theme: &Theme, width: usize)
    requires
        rows@.len() >= 2,
    ensures
        style::rows(final(out)@) == style::rows(old(out)@) + framed(
            cell_rows(rows@),
            *theme,
            width as int,
        ),
{
    broadcast use style::group_line_lists;

    let ghost all: Seq<Seq<Seq<char>>> = cell_rows(rows@);
    let cols: usize = count_columns(rows);
    if cols == 0 {
        style::push_line(out, style::blank());
        return;
    }
    let widths: Vec<usize> = share_room(rows, cols, width);
    let ghost w: Seq<int> = column_widths(all, cols as int, width as int);
    assert(ints(widths@).len() == widths@.len());
    let frame: String = format_table_border(&widths);
    let look: Style = lines::label_style(*theme);
    style::push_line(out, style::single(text::copy(frame.as_str()), look));
    assert(all[0] == text::texts(rows@[0]@));
    style::push_line(out, table_row_line(&rows[0], &widths, lines::title_style(*theme), theme));
    style::push_line(out, style::single(text::copy(frame.as_str()), look));
    let ghost before: Seq<Seq<Piece>> = style::rows(out@);
    let mut i: usize = 2;
    while i < rows.len()
        invariant
            2 <= i <= rows@.len(),
            all == cell_rows(rows@),
            ints(widths@) == w,
            w.len() == widths@.len(),
            style::rows(out@) == before + body_rows(all, w, *theme, i as int),
        decreases rows@.len() - i,
    {
        broadcast use style::group_line_lists;

        assert(all[i as int] == text::texts(rows@[i as int]@));
        style::push_line(
            out,
            table_row_line(&rows[i], &widths, Style::plain().fg(theme.foreground), theme),
        );
        i += 1;
    }
    style::push_line(out, style::single(frame, look));
}

pub fn render_markdown_table(out: &mut Vec<Line>, table: &Vec<String>, theme: &Theme, width: usize)
    ensures
        style::rows(final(out)@) == style::rows(old(out)@) + table_rows(
            text::texts(table@),
            *theme,
            width as int,
        ),
{
    reveal(table_rows);
    if table.len() < 2 {
        push_as_code(out, table, theme, width);
        return;
    }
    let rows: Vec<Vec<String>> = split_rows(table);
    assert(cell_rows(rows@).len() == table@.len());
    assert(cell_rows(rows@)[1] == text::texts(rows@[1]@));
    if !is_markdown_table_separator(&rows[1]) {
        push_as_code(out, table, theme, width);
        return;
    }
    push_framed(out, &rows, theme, width);
}

} // verus!
