//! The part of a line that is shown.

use vstd::prelude::*;

use crate::columns;
use crate::runs;
use crate::runs::Gathered;
use crate::runs::Runs;
use crate::style;
use crate::style::Piece;
use crate::style::Span;
use crate::style::Style;
use crate::text;

verus! {

/// The cells from a column to the next tab stop.
pub open spec fn to_tab_stop(col: int, tab_width: int) -> int {
    let tab: int = text::max_int(tab_width, 1);
    tab - col % tab
}

/// The column behind the first `n` characters of a line.
pub open spec fn display_col(s: Seq<char>, tab_width: int, n: int) -> int
    decreases n,
{
    if n <= 0 {
        0
    } else {
        let before: int = display_col(s, tab_width, n - 1);
        before + (if s[n - 1] == '\t' {
            to_tab_stop(before, tab_width)
        } else {
            columns::cells(s[n - 1])
        })
    }
}

/// Every character takes a column or more.
pub proof fn columns_grow(s: Seq<char>, tab_width: int, m: int, n: int)
    requires
        0 <= m < n <= s.len(),
    ensures
        0 <= display_col(s, tab_width, m) < display_col(s, tab_width, n),
    decreases n,
{
    let before: int = display_col(s, tab_width, n - 1);
    if m < n - 1 {
        columns_grow(s, tab_width, m, n - 1);
    } else if n - 1 > 0 {
        columns_grow(s, tab_width, 0, n - 1);
    }
    assert(0 <= before % text::max_int(tab_width, 1) < text::max_int(tab_width, 1));
}

/// The column behind the first characters of a line, or the largest number where it is beyond.
pub fn display_col_for_char_idx(v: &Vec<char>, char_idx: usize, tab_width: usize) -> (r: usize)
    ensures
        r == text::min_int(
            display_col(
                v@,
                tab_width as int,
                text::min_int(char_idx as int, v@.len() as int),
            ),
            usize::MAX as int,
        ),
{
    let end: usize = text::min_of(char_idx, v.len());
    let tab: usize = text::max_of(tab_width, 1);
    let mut col: usize = 0;
    let mut i: usize = 0;
    while i < end
        invariant
            i <= end <= v@.len(),
            tab == text::max_int(tab_width as int, 1),
            col == text::min_int(
                display_col(v@, tab_width as int, i as int),
                usize::MAX as int,
            ),
            display_col(v@, tab_width as int, i as int) >= 0,
        decreases end - i,
    {
        proof {
            columns_grow(v@, tab_width as int, i as int, i + 1);
        }
        let advance: usize = if v[i] == '\t' {
            tab - col % tab
        } else {
            columns::cell_width(v[i])
        };
        col = col.saturating_add(advance);
        i += 1;
    }
    col
}

/// A line on its way into pieces: the column that was reached, and whether the end of what is shown
/// was passed.
pub struct Painted {
    pub gathered: Gathered,
    pub col: int,
    pub past: bool,
}

/// One more character, where the columns from `from` to `end` are shown.
pub open spec fn painted(p: Painted, c: char, look: Style, from: int, end: int, tab_width: int) -> Painted {
    if p.past {
        p
    } else if c == '\t' {
        if p.col >= end {
            p
        } else {
            let stop: int = text::min_int(p.col + to_tab_stop(p.col, tab_width), end);
            Painted {
                gathered: runs::with_spaces(
                    p.gathered,
                    look,
                    text::monus(stop, text::max_int(p.col, from)),
                ),
                col: stop,
                past: false,
            }
        }
    } else {
        let next: int = p.col + columns::cells(c);
        if next <= from {
            Painted { col: next, ..p }
        } else if p.col >= end {
            Painted { past: true, ..p }
        } else {
            Painted { gathered: runs::with(p.gathered, c, look), col: next, past: false }
        }
    }
}

/// The first `n` characters.
pub open spec fn painted_upto(
    s: Seq<char>,
    looks: Seq<Style>,
    from: int,
    end: int,
    tab_width: int,
    n: int,
) -> Painted
    decreases n,
{
    if n <= 0 {
        Painted { gathered: runs::nothing(looks[0]), col: 0, past: false }
    } else {
        painted(
            painted_upto(s, looks, from, end, tab_width, n - 1),
            s[n - 1],
            looks[n - 1],
            from,
            end,
            tab_width,
        )
    }
}

/// A line from a column on, with spaces behind it that fill the rest of the pane.
pub open spec fn shown(
    s: Seq<char>,
    looks: Seq<Style>,
    from: int,
    width: int,
    tab_width: int,
    base: Style,
) -> Seq<Piece> {
    let space: Seq<Piece> = seq![
        style::piece(text::fill(' ', text::max_int(width, 1) as nat), base),
    ];
    if s.len() == 0 {
        space
    } else {
        let end: int = text::min_int(from + width, usize::MAX as int);
        let all: Seq<Piece> = runs::all_pieces(
            painted_upto(s, looks, from, end, tab_width, s.len() as int).gathered,
        );
        (if all.len() == 0 {
            seq![style::piece(""@, base)]
        } else {
            all
        }) + space
    }
}

/// A line on its way into pieces.
struct Painter {
    runs: Runs,
    col: usize,
    past: bool,
}

/// Whether a painter has come as far as a line; a column beyond the largest number is not told from
/// that.
spec fn has_painted(p: Painter, q: Painted) -> bool {
    &&& p.runs@ == q.gathered
    &&& q.col >= 0
    &&& p.col == text::min_int(q.col, usize::MAX as int)
    &&& p.past == q.past
}

fn paint(
    p: Painter,
    Ghost(q): Ghost<Painted>,
    c: char,
    look: Style,
    from: usize,
    end: usize,
    tab_width: usize,
) -> (r: Painter)
    requires
        has_painted(p, q),
    ensures
        has_painted(r, painted(q, c, look, from as int, end as int, tab_width as int)),
{
    if p.past {
        return p;
    }
    if c == '\t' {
        if p.col >= end {
            return p;
        }
        let tab: usize = text::max_of(tab_width, 1);
        let step: usize = tab - p.col % tab;
        let stop: usize = if step > end - p.col {
            end
        } else {
            p.col + step
        };
        let count: usize = text::minus(stop, text::max_of(p.col, from));
        return Painter { runs: p.runs.put_spaces(look, count), col: stop, past: false };
    }
    let need: usize = columns::cell_width(c);
    if !columns::overflows(p.col, need, from) {
        return Painter { runs: p.runs, col: p.col + need, past: false };
    }
    if p.col >= end {
        return Painter { runs: p.runs, col: p.col, past: true };
    }
    Painter { runs: p.runs.put(c, look), col: p.col.saturating_add(need), past: false }
}

pub fn build_spans(
    v: &Vec<char>,
    looks: &Vec<Style>,
    from: usize,
    width: usize,
    tab_width: usize,
    base: Style,
) -> (r: Vec<Span>)
    requires
        looks@.len() == v@.len(),
    ensures
        style::pieces(r@) == shown(
            v@,
            looks@,
            from as int,
            width as int,
            tab_width as int,
            base,
        ),
{
    let space: Span = style::styled(text::filled(' ', text::max_of(width, 1)), base);
    let ghost filled: Piece = space@;
    let total: usize = v.len();
    if total == 0 {
        let r: Vec<Span> = vec![space];
        assert(style::pieces(r@) =~= seq![filled]);
        return r;
    }
    let end: usize = from.saturating_add(width);
    let mut p: Painter = Painter { runs: Runs::new(looks[0]), col: 0, past: false };
    let mut i: usize = 0;
    while i < total
        invariant
            i <= total == v@.len(),
            looks@.len() == v@.len(),
            end == text::min_int(from + width, usize::MAX as int),
            has_painted(
                p,
                painted_upto(v@, looks@, from as int, end as int, tab_width as int, i as int),
            ),
        decreases total - i,
    {
        let ghost q: Painted = painted_upto(
            v@,
            looks@,
            from as int,
            end as int,
            tab_width as int,
            i as int,
        );
        p = paint(p, Ghost(q), v[i], looks[i], from, end, tab_width);
        i += 1;
    }
    let mut out: Vec<Span> = p.runs.finish();
    assert(style::pieces(out@).len() == out@.len());
    if out.len() == 0 {
        out.push(style::span("", base));
        assert(style::pieces(out@) =~= seq![style::piece(""@, base)]);
    }
    let ghost before: Seq<Piece> = style::pieces(out@);
    out.push(space);
    assert(style::pieces(out@) =~= before + seq![filled]);
    out
}

proof fn prefix_is_shown(
    s: Seq<char>,
    looks: Seq<Style>,
    end: int,
    tab_width: int,
    n: int,
)
    requires
        0 <= n <= s.len(),
        !text::has(s, '\t'),
        display_col(s, tab_width, s.len() as int) <= end,
    ensures
        ({
            let p: Painted = painted_upto(s, looks, 0, end, tab_width, n);
            &&& !p.past
            &&& p.col == display_col(s, tab_width, n)
            &&& runs::gathered_text(p.gathered) == s.take(n)
        }),
    decreases n,
{
    if n > 0 {
        prefix_is_shown(s, looks, end, tab_width, n - 1);
        text::char_at_or_after_is_first(s, '\t', 0);
        assert(s[n - 1] != '\t');
        columns_grow(s, tab_width, n - 1, n);
        if n < s.len() {
            columns_grow(s, tab_width, n, s.len() as int);
        }
        runs::gathering_keeps_text(
            painted_upto(s, looks, 0, end, tab_width, n - 1).gathered,
            s[n - 1],
            looks[n - 1],
        );
        assert(s.take(n) =~= s.take(n - 1).push(s[n - 1]));
    } else {
        runs::nothing_is_empty(looks[0]);
        assert(s.take(0) =~= Seq::<char>::empty());
    }
}

/// A line without tabs that the pane is wide enough for is shown with all of its characters, with
/// only spaces behind them.
pub proof fn wide_panes_show_the_line(
    s: Seq<char>,
    looks: Seq<Style>,
    width: int,
    tab_width: int,
    base: Style,
)
    requires
        !text::has(s, '\t'),
        display_col(s, tab_width, s.len() as int) <= width <= usize::MAX,
        width >= 1,
    ensures
        style::plain_text(shown(s, looks, 0, width, tab_width, base)) == s + text::fill(
            ' ',
            width as nat,
        ),
{
    let last: Piece = style::piece(text::fill(' ', width as nat), base);
    let all: Seq<Piece> = runs::all_pieces(
        painted_upto(s, looks, 0, width, tab_width, s.len() as int).gathered,
    );
    style::one_piece_text(last);
    if s.len() == 0 {
        assert(s + text::fill(' ', width as nat) =~= text::fill(' ', width as nat));
    } else {
        prefix_is_shown(s, looks, width, tab_width, s.len() as int);
        assert(s.take(s.len() as int) =~= s);
        assert(all.len() > 0);
        style::plain_text_add(all, seq![last]);
    }
}

/// The cells that a text takes on the screen.
pub open spec fn drawn_cells(s: Seq<char>) -> int
    decreases s.len(),
{
    if s.len() == 0 {
        0
    } else {
        drawn_cells(s.drop_last()) + columns::cells(s.last())
    }
}

/// Where a line is shown from the character at `first` on, what is drawn of it before the character
/// at `n` takes as many cells as the caret at `n` stands right of the first one. This is for a line
/// without tabs and a caret in sight.
pub proof fn caret_stands_on_its_character(
    s: Seq<char>,
    looks: Seq<Style>,
    first: int,
    end: int,
    tab_width: int,
    n: int,
)
    requires
        0 <= first <= s.len(),
        0 <= n <= s.len(),
        !text::has(s, '\t'),
        display_col(s, tab_width, n) <= end,
    ensures
        ({
            let from: int = display_col(s, tab_width, first);
            let p: Painted = painted_upto(s, looks, from, end, tab_width, n);
            &&& !p.past
            &&& p.col == display_col(s, tab_width, n)
            &&& drawn_cells(runs::gathered_text(p.gathered)) == text::monus(
                display_col(s, tab_width, n),
                from,
            )
        }),
    decreases n,
{
    let from: int = display_col(s, tab_width, first);
    if n > 0 {
        text::char_at_or_after_is_first(s, '\t', 0);
        assert(s[n - 1] != '\t');
        columns_grow(s, tab_width, n - 1, n);
        caret_stands_on_its_character(s, looks, first, end, tab_width, n - 1);
        let before: Painted = painted_upto(s, looks, from, end, tab_width, n - 1);
        runs::gathering_keeps_text(before.gathered, s[n - 1], looks[n - 1]);
        let held: Seq<char> = runs::gathered_text(before.gathered);
        assert(held.push(s[n - 1]).drop_last() =~= held);
        if n <= first {
            if n < first {
                columns_grow(s, tab_width, n, first);
            }
        } else {
            if first < n - 1 {
                columns_grow(s, tab_width, first, n - 1);
            }
        }
    } else {
        runs::nothing_is_empty(looks[0]);
        if first > 0 {
            columns_grow(s, tab_width, 0, first);
        }
    }
}

} // verus!
