//! Breaking text into lines at spaces.

use vstd::prelude::*;

use crate::columns;
use crate::text;

verus! {

/// A text on its way into lines: the lines that are full, the open line with its cells, and how
/// much of the open line ends at its last space.
pub struct Filling {
    pub full: Seq<Seq<char>>,
    pub open: Seq<char>,
    pub cells: int,
    pub last_break: Option<(int, int)>,
}

pub open spec fn fresh() -> Filling {
    Filling { full: Seq::empty(), open: Seq::empty(), cells: 0, last_break: None }
}

/// The open line is closed.
pub open spec fn closed(f: Filling) -> Filling {
    Filling { full: f.full.push(f.open), open: Seq::empty(), cells: 0, last_break: None }
}

/// Room is made for `need` more cells: where they do not fit, the open line ends at its last
/// space, or right here where it has none.
pub open spec fn roomy(f: Filling, need: int, width: int) -> Filling {
    if columns::leaves(f.cells, need, width) && f.open.len() > 0 {
        match f.last_break {
            Some(at) => Filling {
                full: f.full.push(text::head(f.open, at.0)),
                open: text::tail(f.open, at.0),
                cells: text::monus(f.cells, at.1),
                last_break: None,
            },
            None => closed(f),
        }
    } else {
        f
    }
}

/// One character is put on the open line, or on a new one where it does not fit.
pub open spec fn put(f: Filling, c: char, width: int) -> Filling {
    let g: Filling = roomy(f, columns::cells(c), width);
    let open: Seq<char> = g.open.push(c);
    let cells: int = g.cells + columns::cells(c);
    Filling {
        full: g.full,
        open,
        cells,
        last_break: if c == ' ' {
            Some((open.len() as int, cells))
        } else {
            g.last_break
        },
    }
}

pub open spec fn put_spaces(f: Filling, n: int, width: int) -> Filling
    decreases n,
{
    if n <= 0 {
        f
    } else {
        put(put_spaces(f, n - 1, width), ' ', width)
    }
}

/// One character of the text is taken up: line ends close the line, a tab becomes spaces.
pub open spec fn fed(f: Filling, c: char, width: int) -> Filling {
    if c == '\n' || c == '\r' {
        closed(f)
    } else if c == '\t' {
        put_spaces(f, columns::tab_cells(f.cells, width), width)
    } else {
        put(f, c, width)
    }
}

pub open spec fn filled(s: Seq<char>, width: int, n: int) -> Filling
    decreases n,
{
    if n <= 0 {
        fresh()
    } else {
        fed(filled(s, width, n - 1), s[n - 1], width)
    }
}

/// The lines of `s` at `width` cells, broken at spaces where that is possible.
pub open spec fn visual_lines(s: Seq<char>, width: int) -> Seq<Seq<char>> {
    let w: int = if width >= 1 {
        width
    } else {
        1
    };
    let end: Filling = filled(s, w, s.len() as int);
    end.full.push(end.open)
}

struct Buffer {
    full: Vec<String>,
    open: Vec<char>,
    cells: u128,
    last_break: Option<(usize, u128)>,
}

spec fn holds(b: Buffer, f: Filling) -> bool {
    &&& text::texts(b.full@) == f.full
    &&& b.open@ == f.open
    &&& b.cells == f.cells
    &&& match b.last_break {
        Some(at) => f.last_break == Some((at.0 as int, at.1 as int)) && at.0 <= b.open@.len(),
        None => f.last_break is None,
    }
}

fn close(b: Buffer, Ghost(f): Ghost<Filling>) -> (r: Buffer)
    requires
        holds(b, f),
    ensures
        holds(r, closed(f)),
        r.cells == 0,
{
    broadcast use text::group_texts;

    let mut full: Vec<String> = b.full;
    full.push(text::text_of(&b.open));
    Buffer { full, open: Vec::new(), cells: 0, last_break: None }
}

fn make_room(b: Buffer, need: usize, width: usize, Ghost(f): Ghost<Filling>) -> (r: Buffer)
    requires
        holds(b, f),
        b.cells < 0x1_0000_0000_0000_0000_0000,
    ensures
        holds(r, roomy(f, need as int, width as int)),
        r.cells <= b.cells,
{
    broadcast use text::group_texts;

    if b.cells + (need as u128) <= width as u128 || b.open.len() == 0 {
        return b;
    }
    match b.last_break {
        Some(at) => {
            let mut full: Vec<String> = b.full;
            let before: String = text::text_range(&b.open, 0, at.0);
            assert(before@ =~= text::head(f.open, at.0 as int));
            full.push(before);
            let mut open: Vec<char> = Vec::new();
            let mut i: usize = at.0;
            while i < b.open.len()
                invariant
                    at.0 <= i <= b.open@.len(),
                    open@ == b.open@.subrange(at.0 as int, i as int),
                decreases b.open@.len() - i,
            {
                open.push(b.open[i]);
                proof {
                    assert(b.open@.subrange(at.0 as int, i as int).push(b.open@[i as int])
                        =~= b.open@.subrange(at.0 as int, i + 1));
                }
                i += 1;
            }
            assert(open@ =~= text::tail(f.open, at.0 as int));
            let cells: u128 = if b.cells >= at.1 {
                b.cells - at.1
            } else {
                0
            };
            Buffer { full, open, cells, last_break: None }
        },
        None => close(b, Ghost(f)),
    }
}

fn put_char(b: Buffer, c: char, width: usize, Ghost(f): Ghost<Filling>) -> (r: Buffer)
    requires
        holds(b, f),
        b.cells < 0x1_0000_0000_0000_0000_0000,
    ensures
        holds(r, put(f, c, width as int)),
        r.cells <= b.cells + 3,
{
    let need: usize = columns::cell_width(c);
    let mut g: Buffer = make_room(b, need, width, Ghost(f));
    let ghost room: Filling = roomy(f, need as int, width as int);
    g.open.push(c);
    g.cells = g.cells + (need as u128);
    if c == ' ' {
        g.last_break = Some((g.open.len(), g.cells));
    }
    g
}

/// The lines of `text` at `width` cells, broken at spaces where that is possible.
pub fn wrap_visual_line(s: &str, width: usize) -> (r: Vec<String>)
    ensures
        text::texts(r@) == visual_lines(s@, width as int),
        r@.len() >= 1,
{
    broadcast use text::group_texts;

    let w: usize = text::max_of(width, 1);
    let v: Vec<char> = text::chars_of(s);
    let n: usize = v.len();
    let mut b: Buffer = Buffer { full: Vec::new(), open: Vec::new(), cells: 0, last_break: None };
    let mut i: usize = 0;
    while i < n
        invariant
            i <= n,
            n == v@.len(),
            v@ == s@,
            w >= 1,
            b.cells <= 12 * i,
            holds(b, filled(s@, w as int, i as int)),
        decreases n - i,
    {
        let c: char = v[i];
        let ghost f: Filling = filled(s@, w as int, i as int);
        if c == '\n' || c == '\r' {
            b = close(b, Ghost(f));
        } else if c == '\t' {
            let gap: usize = columns::next_tab_width((b.cells % 4) as usize, w);
            let mut k: usize = 0;
            let ghost start: int = b.cells as int;
            while k < gap
                invariant
                    k <= gap <= 4,
                    b.cells <= start + 3 * k,
                    start <= 12 * i,
                    i < n,
                    holds(b, put_spaces(f, k as int, w as int)),
                decreases gap - k,
            {
                let ghost g: Filling = put_spaces(f, k as int, w as int);
                b = put_char(b, ' ', w, Ghost(g));
                k += 1;
            }
        } else {
            b = put_char(b, c, w, Ghost(f));
        }
        i += 1;
    }
    let mut full: Vec<String> = b.full;
    full.push(text::text_of(&b.open));
    full
}

/// There is always a line, if only an empty one.
pub proof fn some_line_is_left(s: Seq<char>, width: int)
    ensures
        visual_lines(s, width).len() >= 1,
{
}

pub open spec fn held(f: Filling) -> Seq<char> {
    text::run_together(f.full) + f.open
}

/// A line more is run together behind the others.
pub proof fn run_together_push(lines: Seq<Seq<char>>, line: Seq<char>)
    ensures
        text::run_together(lines.push(line)) == text::run_together(lines) + line,
{
    assert(lines.push(line).drop_last() =~= lines);
}

/// A character that is put on a line stands behind everything that was there.
pub proof fn put_keeps(f: Filling, c: char, width: int)
    ensures
        held(put(f, c, width)) == held(f).push(c),
{
    let g: Filling = roomy(f, columns::cells(c), width);
    assert(held(g) == held(f)) by {
        if columns::leaves(f.cells, columns::cells(c), width) && f.open.len() > 0 {
            match f.last_break {
                Some(at) => {
                    run_together_push(f.full, text::head(f.open, at.0));
                    text::head_tail(f.open, at.0);
                    assert(text::run_together(f.full) + text::head(f.open, at.0) + text::tail(
                        f.open,
                        at.0,
                    ) =~= text::run_together(f.full) + (text::head(f.open, at.0) + text::tail(
                        f.open,
                        at.0,
                    )));
                },
                None => {
                    run_together_push(f.full, f.open);
                    assert(held(g) =~= held(f));
                },
            }
        }
    }
    assert(text::run_together(g.full) + g.open.push(c) =~= (text::run_together(g.full)
        + g.open).push(c));
}

proof fn filling_keeps(s: Seq<char>, width: int, n: int)
    requires
        0 <= n <= s.len(),
        forall|i: int|
            0 <= i < s.len() ==> #[trigger] s[i] != '\n' && s[i] != '\r' && s[i] != '\t',
    ensures
        held(filled(s, width, n)) == s.subrange(0, n),
    decreases n,
{
    if n <= 0 {
        assert(held(fresh()) =~= s.subrange(0, 0));
    } else {
        filling_keeps(s, width, n - 1);
        put_keeps(filled(s, width, n - 1), s[n - 1], width);
        assert(s.subrange(0, n - 1).push(s[n - 1]) =~= s.subrange(0, n));
    }
}

/// A text without line ends and tabs is only cut: its lines run together are the text again.
pub proof fn lines_run_together(s: Seq<char>, width: int)
    requires
        forall|i: int|
            0 <= i < s.len() ==> #[trigger] s[i] != '\n' && s[i] != '\r' && s[i] != '\t',
    ensures
        text::run_together(visual_lines(s, width)) == s,
{
    let w: int = if width >= 1 {
        width
    } else {
        1
    };
    filling_keeps(s, w, s.len() as int);
    let end: Filling = filled(s, w, s.len() as int);
    run_together_push(end.full, end.open);
    assert(s.subrange(0, s.len() as int) =~= s);
}

/// `s` without the carriage returns at its end.
pub open spec fn without_crs(s: Seq<char>) -> Seq<char>
    decreases s.len(),
{
    if s.len() > 0 && s[s.len() - 1] == '\r' {
        without_crs(s.subrange(0, s.len() - 1))
    } else {
        s
    }
}

/// `s` without the line feeds and carriage returns at its end.
pub open spec fn without_line_ends(s: Seq<char>) -> Seq<char>
    decreases s.len(),
{
    if s.len() > 0 && (s[s.len() - 1] == '\r' || s[s.len() - 1] == '\n') {
        without_line_ends(s.subrange(0, s.len() - 1))
    } else {
        s
    }
}

/// The last white character among the first `n` of `s`.
pub open spec fn last_white(s: Seq<char>, n: int) -> Option<int>
    decreases n,
{
    if n <= 0 || n > s.len() {
        None
    } else if text::white(s[n - 1]) {
        Some(n - 1)
    } else {
        last_white(s, n - 1)
    }
}

/// The first line of a text that does not fit in `width` characters, and what is left: cut before
/// the last white character where there is one, with the white characters around the cut dropped.
pub open spec fn cell_cut(s: Seq<char>, width: int) -> (Seq<char>, Seq<char>) {
    match last_white(s, width) {
        None => (text::head(s, width), text::tail(s, width)),
        Some(k) => if k <= 0 {
            (text::head(s, width), text::trimmed_start(text::tail(s, width)))
        } else {
            (text::trimmed_end(text::head(s, k)), text::trimmed_start(text::tail(s, k)))
        },
    }
}

/// The lines of one paragraph in a cell of `width` characters.
pub open spec fn paragraph_lines(s: Seq<char>, width: int) -> Seq<Seq<char>>
    decreases s.len(),
{
    if width < 1 || s.len() <= width {
        seq![s]
    } else {
        let cut: (Seq<char>, Seq<char>) = cell_cut(s, width);
        proof {
            text::trimmed_start_not_longer(text::tail(s, width));
            match last_white(s, width) {
                Some(k) => {
                    text::trimmed_start_not_longer(text::tail(s, k));
                },
                None => {},
            }
        }
        seq![cut.0] + paragraph_lines(cut.1, width)
    }
}

/// The lines of the first `n` paragraphs.
pub open spec fn paragraphs(parts: Seq<Seq<char>>, width: int, n: int) -> Seq<Seq<char>>
    decreases n,
{
    if n <= 0 {
        Seq::empty()
    } else {
        paragraphs(parts, width, n - 1) + paragraph_lines(without_crs(parts[n - 1]), width)
    }
}

/// The lines of a text in a table cell of `width` characters.
pub open spec fn cell_lines(s: Seq<char>, width: int) -> Seq<Seq<char>> {
    if width <= 0 {
        seq![Seq::empty()]
    } else {
        let parts: Seq<Seq<char>> = text::split_at_char(without_line_ends(s), '\n');
        paragraphs(parts, width, parts.len() as int)
    }
}

fn trim_crs(s: &str) -> (r: String)
    ensures
        r@ == without_crs(s@),
{
    let v: Vec<char> = text::chars_of(s);
    let mut j: usize = v.len();
    assert(v@.subrange(0, v@.len() as int) =~= v@);
    while j > 0 && v[j - 1] == '\r'
        invariant
            j <= v@.len(),
            without_crs(v@) == without_crs(v@.subrange(0, j as int)),
        decreases j,
    {
        assert(v@.subrange(0, j as int).subrange(0, j - 1) =~= v@.subrange(0, j - 1));
        j -= 1;
    }
    text::text_range(&v, 0, j)
}

fn trim_line_ends(s: &str) -> (r: String)
    ensures
        r@ == without_line_ends(s@),
{
    let v: Vec<char> = text::chars_of(s);
    let mut j: usize = v.len();
    assert(v@.subrange(0, v@.len() as int) =~= v@);
    while j > 0 && (v[j - 1] == '\r' || v[j - 1] == '\n')
        invariant
            j <= v@.len(),
            without_line_ends(v@) == without_line_ends(v@.subrange(0, j as int)),
        decreases j,
    {
        assert(v@.subrange(0, j as int).subrange(0, j - 1) =~= v@.subrange(0, j - 1));
        j -= 1;
    }
    text::text_range(&v, 0, j)
}

proof fn last_white_in(s: Seq<char>, n: int)
    requires
        0 <= n <= s.len(),
    ensures
        last_white(s, n) matches Some(k) ==> 0 <= k < n,
    decreases n,
{
    if n > 0 {
        last_white_in(s, n - 1);
    }
}

fn wrap_paragraph(s: &str, width: usize) -> (r: Vec<String>)
    requires
        width >= 1,
    ensures
        text::texts(r@) == paragraph_lines(s@, width as int),
{
    broadcast use text::group_texts;

    let v: Vec<char> = text::chars_of(s);
    let n: usize = v.len();
    let mut out: Vec<String> = Vec::new();
    let mut from: usize = 0;
    assert(v@.subrange(0, n as int) =~= v@);
    assert(text::texts(out@) + paragraph_lines(v@, width as int) =~= paragraph_lines(
        s@,
        width as int,
    ));
    while n - from > width
        invariant
            from <= n,
            n == v@.len(),
            width >= 1,
            text::texts(out@) + paragraph_lines(v@.subrange(from as int, n as int), width as int)
                == paragraph_lines(s@, width as int),
        decreases n - from,
    {
        let ghost rest: Seq<char> = v@.subrange(from as int, n as int);
        let mut k: usize = width;
        while k > 0 && !text::is_white(v[from + k - 1])
            invariant
                k <= width,
                from + width <= n,
                n == v@.len(),
                rest == v@.subrange(from as int, n as int),
                last_white(rest, width as int) == last_white(rest, k as int),
            decreases k,
        {
            k -= 1;
        }
        proof {
            last_white_in(rest, width as int);
            text::trimmed_start_not_longer(text::tail(rest, width as int));
        }
        let line: String;
        let next: usize;
        if k == 0 {
            line = text::text_range(&v, from, from + width);
            next = from + width;
            proof {
                assert(line@ =~= text::head(rest, width as int));
                assert(v@.subrange(next as int, n as int) =~= text::tail(rest, width as int));
            }
        } else if k == 1 {
            line = text::text_range(&v, from, from + width);
            next = text::first_dark(&v, from + width);
            proof {
                assert(line@ =~= text::head(rest, width as int));
                assert(v@.subrange(from + width, n as int) =~= text::tail(rest, width as int));
            }
        } else {
            let stop: usize = text::last_dark(&v, from, from + k - 1);
            line = text::text_range(&v, from, stop);
            next = text::first_dark(&v, from + k - 1);
            proof {
                assert(v@.subrange(from as int, from + k - 1) =~= text::head(rest, k - 1));
                assert(v@.subrange(from + k - 1, n as int) =~= text::tail(rest, k - 1));
            }
        }
        proof {
            let left: Seq<char> = v@.subrange(next as int, n as int);
            assert(cell_cut(rest, width as int) == (line@, left));
            assert((text::texts(out@).push(line@)) + paragraph_lines(left, width as int)
                =~= text::texts(out@) + (seq![line@] + paragraph_lines(left, width as int)));
        }
        out.push(line);
        from = next;
    }
    let last: String = text::text_range(&v, from, n);
    assert(text::texts(out@).push(last@) =~= text::texts(out@) + seq![last@]);
    out.push(last);
    out
}

/// The lines of a text in a table cell of `width` characters.
pub fn wrap_cell_text(s: &str, width: usize) -> (r: Vec<String>)
    ensures
        text::texts(r@) == cell_lines(s@, width as int),
{
    broadcast use text::group_texts;

    let mut out: Vec<String> = Vec::new();
    if width == 0 {
        out.push(String::new());
        assert(text::texts(out@) =~= seq![Seq::<char>::empty()]);
        return out;
    }
    let body: String = trim_line_ends(s);
    let parts: Vec<String> = text::split_char(body.as_str(), '\n');
    let mut i: usize = 0;
    while i < parts.len()
        invariant
            i <= parts@.len(),
            width >= 1,
            text::texts(out@) == paragraphs(text::texts(parts@), width as int, i as int),
        decreases parts@.len() - i,
    {
        let part: String = trim_crs(parts[i].as_str());
        let mut lines: Vec<String> = wrap_paragraph(part.as_str(), width);
        out.append(&mut lines);
        i += 1;
    }
    out
}

proof fn some_paragraph_line(s: Seq<char>, width: int)
    ensures
        paragraph_lines(s, width).len() > 0,
{
}

proof fn some_paragraphs_line(parts: Seq<Seq<char>>, width: int, n: int)
    requires
        0 < n <= parts.len(),
    ensures
        paragraphs(parts, width, n).len() > 0,
{
    some_paragraph_line(without_crs(parts[n - 1]), width);
}

/// A cell is never without a line.
pub proof fn some_cell_line_is_left(s: Seq<char>, width: int)
    ensures
        cell_lines(s, width).len() > 0,
{
    if width > 0 {
        let parts: Seq<Seq<char>> = text::split_at_char(without_line_ends(s), '\n');
        assert(parts.len() > 0);
        some_paragraphs_line(parts, width, parts.len() as int);
    }
}

proof fn cut_line_fits(s: Seq<char>, width: int)
    requires
        1 <= width < s.len(),
    ensures
        cell_cut(s, width).0.len() <= width,
{
    last_white_in(s, width);
    match last_white(s, width) {
        Some(k) => {
            trimmed_end_not_longer(text::head(s, k));
        },
        None => {},
    }
}

proof fn trimmed_end_not_longer(s: Seq<char>)
    ensures
        text::trimmed_end(s).len() <= s.len(),
    decreases s.len(),
{
    if s.len() > 0 && text::white(s[s.len() - 1]) {
        trimmed_end_not_longer(s.subrange(0, s.len() - 1));
    }
}

proof fn paragraph_lines_fit(s: Seq<char>, width: int, i: int)
    requires
        1 <= width,
        0 <= i < paragraph_lines(s, width).len(),
    ensures
        paragraph_lines(s, width)[i].len() <= width,
    decreases s.len(),
{
    if s.len() > width {
        let cut: (Seq<char>, Seq<char>) = cell_cut(s, width);
        cut_line_fits(s, width);
        text::trimmed_start_not_longer(text::tail(s, width));
        match last_white(s, width) {
            Some(k) => {
                text::trimmed_start_not_longer(text::tail(s, k));
            },
            None => {},
        }
        if i > 0 {
            paragraph_lines_fit(cut.1, width, i - 1);
        }
    }
}

proof fn paragraphs_fit(parts: Seq<Seq<char>>, width: int, n: int, i: int)
    requires
        1 <= width,
        0 <= n <= parts.len(),
        0 <= i < paragraphs(parts, width, n).len(),
    ensures
        paragraphs(parts, width, n)[i].len() <= width,
    decreases n,
{
    if n > 0 {
        let before: Seq<Seq<char>> = paragraphs(parts, width, n - 1);
        if i < before.len() {
            paragraphs_fit(parts, width, n - 1, i);
        } else {
            paragraph_lines_fit(without_crs(parts[n - 1]), width, i - before.len());
        }
    }
}

/// No line of a cell is longer than the cell is wide.
pub proof fn cell_lines_fit(s: Seq<char>, width: int, i: int)
    requires
        1 <= width,
        0 <= i < cell_lines(s, width).len(),
    ensures
        cell_lines(s, width)[i].len() <= width,
{
    let parts: Seq<Seq<char>> = text::split_at_char(without_line_ends(s), '\n');
    paragraphs_fit(parts, width, parts.len() as int, i);
}

} // verus!
