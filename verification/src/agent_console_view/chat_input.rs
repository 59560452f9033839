//! The chat input: how its text is broken into lines and where the caret stands.

use vstd::prelude::*;

use crate::columns;
use crate::text;

verus! {

/// A place in the wrapped input: the line, the cell in it, and the characters before it there.
pub struct Caret {
    pub line: int,
    pub cell: int,
    pub chars: int,
}

/// Where the caret goes from `at` when `c` is laid out in lines of `width` cells.
pub open spec fn advance(at: Caret, c: char, width: int) -> Caret {
    if c == '\n' || c == '\r' {
        Caret { line: at.line + 1, cell: 0, chars: 0 }
    } else {
        let tab: bool = c == '\t';
        let need: int = if tab {
            columns::tab_cells(at.cell, width)
        } else {
            columns::cells(c)
        };
        let count: int = if tab {
            need
        } else {
            1
        };
        if columns::leaves(at.cell, need, width) {
            Caret { line: at.line + 1, cell: need, chars: count }
        } else {
            Caret { line: at.line, cell: at.cell + need, chars: at.chars + count }
        }
    }
}

/// The caret after the first `n` characters of `s`.
pub open spec fn caret_after(s: Seq<char>, width: int, n: int) -> Caret
    decreases n,
{
    if n <= 0 {
        Caret { line: 0, cell: 0, chars: 0 }
    } else {
        advance(caret_after(s, width, n - 1), s[n - 1], width)
    }
}

/// The characters that `c` shows at `at`: a tab shows the spaces it stands for.
pub open spec fn shown(at: Caret, c: char, width: int) -> Seq<char> {
    if c == '\t' {
        text::fill(' ', columns::tab_cells(at.cell, width) as nat)
    } else {
        seq![c]
    }
}

/// The lines that the first `n` characters of `s` fill.
pub open spec fn wrapped(s: Seq<char>, width: int, n: int) -> Seq<Seq<char>>
    decreases n,
{
    if n <= 0 {
        seq![Seq::empty()]
    } else {
        let before: Seq<Seq<char>> = wrapped(s, width, n - 1);
        let at: Caret = caret_after(s, width, n - 1);
        let c: char = s[n - 1];
        if c == '\n' || c == '\r' {
            before.push(Seq::empty())
        } else if advance(at, c, width).line > at.line {
            before.push(shown(at, c, width))
        } else {
            before.drop_last().push(before.last() + shown(at, c, width))
        }
    }
}

pub open spec fn at_least_one(width: int) -> int {
    if width >= 1 {
        width
    } else {
        1
    }
}

/// Whether the caret stands at or past the given line and cell.
pub open spec fn reaches(at: Caret, line: int, cell: int) -> bool {
    at.line > line || (at.line == line && at.cell >= cell)
}

/// The first `n`, from `i` on, after which the caret reaches the place; the length otherwise.
pub open spec fn index_reaching(s: Seq<char>, width: int, line: int, cell: int, i: int) -> int
    decreases s.len() - i,
{
    if i >= s.len() {
        s.len() as int
    } else if reaches(caret_after(s, width, i), line, cell) {
        i
    } else {
        index_reaching(s, width, line, cell, i + 1)
    }
}

struct Place {
    line: usize,
    cell: usize,
    chars: usize,
}

spec fn same(p: Place, at: Caret) -> bool {
    p.line == at.line && p.cell == at.cell && p.chars == at.chars
}

fn step(p: Place, c: char, width: usize, Ghost(at): Ghost<Caret>) -> (r: Place)
    requires
        same(p, at),
        p.line < usize::MAX,
        p.chars <= p.cell,
        width >= 1,
    ensures
        same(r, advance(at, c, width as int)),
        r.chars <= r.cell,
        p.line <= r.line <= p.line + 1,
{
    if c == '\n' || c == '\r' {
        return Place { line: p.line + 1, cell: 0, chars: 0 };
    }
    let tab: bool = c == '\t';
    let need: usize = if tab {
        columns::next_tab_width(p.cell, width)
    } else {
        columns::cell_width(c)
    };
    let count: usize = if tab {
        need
    } else {
        1
    };
    if columns::overflows(p.cell, need, width) {
        Place { line: p.line + 1, cell: need, chars: count }
    } else {
        Place { line: p.line, cell: p.cell + need, chars: p.chars + count }
    }
}

/// The index of the character at the given line and cell of the wrapped input.
pub fn chat_input_char_index_for_display_pos(
    input: &str,
    width: usize,
    target_line: usize,
    target_col: usize,
) -> (r: usize)
    ensures
        r == index_reaching(
            input@,
            at_least_one(width as int),
            target_line as int,
            target_col as int,
            0,
        ),
{
    let w: usize = text::max_of(width, 1);
    let v: Vec<char> = text::chars_of(input);
    let n: usize = v.len();
    let mut place: Place = Place { line: 0, cell: 0, chars: 0 };
    let mut i: usize = 0;
    while i < n
        invariant
            i <= n,
            n == v@.len(),
            v@ == input@,
            w >= 1,
            w == at_least_one(width as int),
            place.line <= i,
            place.chars <= place.cell,
            same(place, caret_after(input@, w as int, i as int)),
            index_reaching(input@, w as int, target_line as int, target_col as int, 0)
                == index_reaching(
                input@,
                w as int,
                target_line as int,
                target_col as int,
                i as int,
            ),
        decreases n - i,
    {
        if place.line > target_line || (place.line == target_line && place.cell >= target_col) {
            return i;
        }
        let ghost at: Caret = caret_after(input@, w as int, i as int);
        place = step(place, v[i], w, Ghost(at));
        i += 1;
    }
    n
}

/// The line and the characters before it there of the character `target_char_idx`.
pub fn chat_input_display_pos_for_char_idx(
    input: &str,
    width: usize,
    target_char_idx: usize,
) -> (r: (usize, usize))
    ensures
        ({
            let at: Caret = caret_after(
                input@,
                at_least_one(width as int),
                text::min_int(target_char_idx as int, input@.len() as int),
            );
            r.0 == at.line && r.1 == at.chars
        }),
{
    let width: usize = text::max_of(width, 1);
    let v: Vec<char> = text::chars_of(input);
    let n: usize = text::min_of(target_char_idx, v.len());
    let mut place: Place = Place { line: 0, cell: 0, chars: 0 };
    let mut i: usize = 0;
    while i < n
        invariant
            i <= n <= v@.len(),
            v@ == input@,
            width >= 1,
            place.line <= i,
            place.chars <= place.cell,
            same(place, caret_after(input@, width as int, i as int)),
        decreases n - i,
    {
        let ghost at: Caret = caret_after(input@, width as int, i as int);
        place = step(place, v[i], width, Ghost(at));
        i += 1;
    }
    (place.line, place.chars)
}

/// The lines of `prefix` and `input` together, with the line and the cell of the caret.
pub fn wrap_input_with_cursor(
    prefix: &str,
    input: &str,
    cursor_char_idx: usize,
    width: usize,
) -> (r: (Vec<String>, usize, usize))
    requires
        prefix@.len() + input@.len() <= usize::MAX,
    ensures
        ({
            let s: Seq<char> = prefix@ + input@;
            let w: int = at_least_one(width as int);
            let at: Caret = caret_after(
                s,
                w,
                text::min_int(prefix@.len() + cursor_char_idx, s.len() as int),
            );
            &&& text::texts(r.0@) == wrapped(s, w, s.len() as int)
            &&& r.1 == at.line
            &&& r.2 == at.cell
        }),
{
    broadcast use text::group_texts;

    let width: usize = text::max_of(width, 1);
    let whole: String = text::cat2(prefix, input);
    let v: Vec<char> = text::chars_of(whole.as_str());
    let n: usize = v.len();
    let prefix_len: usize = text::length(prefix);
    let target: usize = if cursor_char_idx <= n - prefix_len {
        prefix_len + cursor_char_idx
    } else {
        n
    };
    let mut lines: Vec<String> = Vec::new();
    let mut current: String = String::new();
    let mut place: Place = Place { line: 0, cell: 0, chars: 0 };
    let mut cursor_line: usize = 0;
    let mut cursor_cell: usize = 0;
    let mut i: usize = 0;
    let ghost s: Seq<char> = prefix@ + input@;
    assert(text::texts(lines@).push(current@) =~= seq![Seq::<char>::empty()]);
    while i < n
        invariant
            i <= n,
            n == v@.len(),
            v@ == s,
            width >= 1,
            target <= n,
            place.line <= i,
            place.chars <= place.cell,
            same(place, caret_after(s, width as int, i as int)),
            text::texts(lines@).push(current@) == wrapped(s, width as int, i as int),
            i > target ==> cursor_line == caret_after(s, width as int, target as int).line
                && cursor_cell == caret_after(s, width as int, target as int).cell,
        decreases n - i,
    {
        if i == target {
            cursor_line = place.line;
            cursor_cell = place.cell;
        }
        let c: char = v[i];
        let ghost at: Caret = caret_after(s, width as int, i as int);
        let ghost before: Seq<Seq<char>> = wrapped(s, width as int, i as int);
        assert(before.last() == current@ && before.drop_last() =~= text::texts(lines@));
        let next: Place = step(
            Place { line: place.line, cell: place.cell, chars: place.chars },
            c,
            width,
            Ghost(at),
        );
        if next.line > place.line {
            lines.push(current);
            current = String::new();
        }
        if c == '\t' {
            let gap: usize = columns::next_tab_width(place.cell, width);
            current.push_str(text::filled(' ', gap).as_str());
        } else if c != '\n' && c != '\r' {
            current.push(c);
        }
        proof {
            let show: Seq<char> = shown(at, c, width as int);
            assert(before.push(Seq::<char>::empty()).drop_last() =~= before);
            assert(Seq::<char>::empty() + show =~= show);
            assert(current@ =~= (if c == '\n' || c == '\r' {
                Seq::empty()
            } else if next.line > place.line {
                show
            } else {
                before.last() + show
            }));
        }
        place = next;
        i += 1;
    }
    if target >= n {
        cursor_line = place.line;
        cursor_cell = place.cell;
    }
    lines.push(current);
    (lines, cursor_line, cursor_cell)
}

/// Every character moves the caret forward.
pub proof fn caret_moves_forward(s: Seq<char>, width: int, m: int, n: int)
    requires
        width >= 1,
        0 <= m < n <= s.len(),
    ensures
        ({
            let a: Caret = caret_after(s, width, m);
            let b: Caret = caret_after(s, width, n);
            a.line < b.line || (a.line == b.line && a.cell < b.cell)
        }),
    decreases n,
{
    let before: Caret = caret_after(s, width, n - 1);
    assert(columns::cells(s[n - 1]) >= 1);
    caret_cell_not_negative(s, width, n - 1);
    if m < n - 1 {
        caret_moves_forward(s, width, m, n - 1);
    }
}

proof fn caret_cell_not_negative(s: Seq<char>, width: int, n: int)
    requires
        width >= 1,
    ensures
        caret_after(s, width, n).cell >= 0,
    decreases n,
{
    if n > 0 {
        caret_cell_not_negative(s, width, n - 1);
    }
}

proof fn index_reaching_skips(s: Seq<char>, width: int, line: int, cell: int, i: int, n: int)
    requires
        0 <= i <= n <= s.len(),
        forall|j: int|
            i <= j < n ==> !reaches(#[trigger] caret_after(s, width, j), line, cell),
        n < s.len() ==> reaches(caret_after(s, width, n), line, cell),
    ensures
        index_reaching(s, width, line, cell, i) == n,
    decreases n - i,
{
    if i < n {
        assert(!reaches(caret_after(s, width, i), line, cell));
        index_reaching_skips(s, width, line, cell, i + 1, n);
    }
}

/// Clicking where the caret stands puts it back where it was: the place of the caret after `n`
/// characters is mapped back to `n`.
pub proof fn caret_place_maps_back(s: Seq<char>, width: int, n: int)
    requires
        width >= 1,
        0 <= n <= s.len(),
    ensures
        index_reaching(
            s,
            width,
            caret_after(s, width, n).line,
            caret_after(s, width, n).cell,
            0,
        ) == n,
{
    let at: Caret = caret_after(s, width, n);
    assert forall|j: int| 0 <= j < n implies !reaches(
        #[trigger] caret_after(s, width, j),
        at.line,
        at.cell,
    ) by {
        caret_moves_forward(s, width, j, n);
    }
    index_reaching_skips(s, width, at.line, at.cell, 0, n);
}

/// The caret stands on the last of the lines that the text before it fills.
pub proof fn caret_stands_on_last_line(s: Seq<char>, width: int, n: int)
    requires
        width >= 1,
    ensures
        wrapped(s, width, n).len() == caret_after(s, width, n).line + 1,
        caret_after(s, width, n).line >= 0,
    decreases n,
{
    if n > 0 {
        caret_stands_on_last_line(s, width, n - 1);
    }
}

/// Wrapping a text without line ends and tabs keeps every character in its order.
pub proof fn wrapping_keeps_text(s: Seq<char>, width: int, n: int)
    requires
        width >= 1,
        0 <= n <= s.len(),
        forall|i: int|
            0 <= i < s.len() ==> #[trigger] s[i] != '\n' && s[i] != '\r' && s[i] != '\t',
    ensures
        text::run_together(wrapped(s, width, n)) == s.subrange(0, n),
    decreases n,
{
    if n <= 0 {
        reveal_with_fuel(text::run_together, 2);
        assert(seq![Seq::<char>::empty()].drop_last() =~= Seq::<Seq<char>>::empty());
        assert(text::run_together(seq![Seq::<char>::empty()]) =~= s.subrange(0, 0));
    } else {
        wrapping_keeps_text(s, width, n - 1);
        caret_stands_on_last_line(s, width, n - 1);
        let before: Seq<Seq<char>> = wrapped(s, width, n - 1);
        let at: Caret = caret_after(s, width, n - 1);
        let c: char = s[n - 1];
        let after: Seq<Seq<char>> = wrapped(s, width, n);
        assert(s.subrange(0, n) =~= s.subrange(0, n - 1) + seq![c]);
        if advance(at, c, width).line > at.line {
            assert(after.drop_last() =~= before);
        } else {
            assert(after.drop_last() =~= before.drop_last());
            assert(text::run_together(before.drop_last()) + (before.last() + seq![c]) =~= text::run_together(
                before.drop_last(),
            ) + before.last() + seq![c]);
        }
    }
}

/// No line is wider than the width, except for one character that is wider by itself.
pub proof fn caret_stays_within_width(s: Seq<char>, width: int, n: int, widest: int)
    requires
        width >= 1,
        0 <= n <= s.len(),
        widest >= 1,
        forall|i: int| 0 <= i < s.len() ==> columns::cells(#[trigger] s[i]) <= widest,
    ensures
        caret_after(s, width, n).cell <= text::max_int(width, widest),
    decreases n,
{
    if n > 0 {
        caret_stays_within_width(s, width, n - 1, widest);
    }
}

} // verus!
