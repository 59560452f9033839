//! What wrapping keeps of a text.

use vstd::prelude::*;

use crate::columns;
use crate::fit;
use crate::laws::texts;
use crate::text;
use crate::wrap;
use crate::wrap::Filling;

verus! {

/// A text without its white characters.
pub open spec fn dark(s: Seq<char>) -> Seq<char>
    decreases s.len(),
{
    if s.len() == 0 {
        Seq::empty()
    } else if text::white(s.last()) {
        dark(s.drop_last())
    } else {
        dark(s.drop_last()).push(s.last())
    }
}

/// What is dark in two texts is dark in both together.
pub proof fn dark_add(a: Seq<char>, b: Seq<char>)
    ensures
        dark(a + b) == dark(a) + dark(b),
    decreases b.len(),
{
    if b.len() == 0 {
        assert(a + b =~= a);
        assert(dark(a) + dark(b) =~= dark(a));
    } else {
        dark_add(a, b.drop_last());
        assert((a + b).drop_last() =~= a + b.drop_last());
        assert((a + b).last() == b.last());
        assert(dark(a + b) =~= dark(a) + dark(b));
    }
}

proof fn nothing_dark(s: Seq<char>)
    requires
        forall|i: int| 0 <= i < s.len() ==> text::white(#[trigger] s[i]),
    ensures
        dark(s) == Seq::<char>::empty(),
    decreases s.len(),
{
    if s.len() > 0 {
        nothing_dark(s.drop_last());
    }
}

proof fn dark_trims(s: Seq<char>)
    ensures
        dark(text::trimmed_start(s)) == dark(s),
        dark(text::trimmed_end(s)) == dark(s),
    decreases s.len(),
{
    if s.len() > 0 && text::white(s[0]) {
        let rest: Seq<char> = s.subrange(1, s.len() as int);
        dark_trims(rest);
        nothing_dark(seq![s[0]]);
        dark_add(seq![s[0]], rest);
        assert(seq![s[0]] + rest =~= s);
        assert(Seq::<char>::empty() + dark(rest) =~= dark(rest));
    }
    if s.len() > 0 && text::white(s[s.len() - 1]) {
        let rest: Seq<char> = s.subrange(0, s.len() - 1);
        dark_trims(rest);
        assert(rest =~= s.drop_last());
    }
}

proof fn cut_keeps(s: Seq<char>, width: int)
    ensures
        dark(wrap::cell_cut(s, width).0) + dark(wrap::cell_cut(s, width).1) == dark(s),
{
    match wrap::last_white(s, width) {
        None => {
            text::head_tail(s, width);
            dark_add(text::head(s, width), text::tail(s, width));
        },
        Some(k) => {
            if k <= 0 {
                text::head_tail(s, width);
                dark_add(text::head(s, width), text::tail(s, width));
                dark_trims(text::tail(s, width));
            } else {
                text::head_tail(s, k);
                dark_add(text::head(s, k), text::tail(s, k));
                dark_trims(text::head(s, k));
                dark_trims(text::tail(s, k));
            }
        },
    }
}

proof fn run_together_add(a: Seq<Seq<char>>, b: Seq<Seq<char>>)
    ensures
        text::run_together(a + b) == text::run_together(a) + text::run_together(b),
    decreases b.len(),
{
    if b.len() == 0 {
        assert(a + b =~= a);
        assert(text::run_together(a) + text::run_together(b) =~= text::run_together(a));
    } else {
        run_together_add(a, b.drop_last());
        assert((a + b).drop_last() =~= a + b.drop_last());
        assert(text::run_together(a) + (text::run_together(b.drop_last()) + b.last())
            =~= text::run_together(a) + text::run_together(b.drop_last()) + b.last());
    }
}

proof fn one_line(s: Seq<char>)
    ensures
        text::run_together(seq![s]) == s,
{
    reveal_with_fuel(text::run_together, 2);
    assert(seq![s].drop_last() =~= Seq::<Seq<char>>::empty());
    assert(Seq::<char>::empty() + s =~= s);
}

proof fn paragraph_keeps(s: Seq<char>, width: int)
    ensures
        dark(text::run_together(wrap::paragraph_lines(s, width))) == dark(s),
    decreases s.len(),
{
    if width < 1 || s.len() <= width {
        one_line(s);
    } else {
        let cut: (Seq<char>, Seq<char>) = wrap::cell_cut(s, width);
        match wrap::last_white(s, width) {
            Some(k) => {
                text::trimmed_start_not_longer(text::tail(s, k));
            },
            None => {},
        }
        text::trimmed_start_not_longer(text::tail(s, width));
        cut_keeps(s, width);
        paragraph_keeps(cut.1, width);
        run_together_add(seq![cut.0], wrap::paragraph_lines(cut.1, width));
        one_line(cut.0);
        dark_add(cut.0, text::run_together(wrap::paragraph_lines(cut.1, width)));
    }
}

proof fn returns_are_white(s: Seq<char>)
    ensures
        dark(wrap::without_crs(s)) == dark(s),
        dark(wrap::without_line_ends(s)) == dark(s),
    decreases s.len(),
{
    if s.len() > 0 && (s[s.len() - 1] == '\r' || s[s.len() - 1] == '\n') {
        let rest: Seq<char> = s.subrange(0, s.len() - 1);
        returns_are_white(rest);
        assert(rest =~= s.drop_last());
    }
}

proof fn parts_keep(parts: Seq<Seq<char>>, width: int, n: int)
    requires
        0 <= n <= parts.len(),
    ensures
        dark(text::run_together(wrap::paragraphs(parts, width, n))) == dark(
            text::run_together(parts.take(n)),
        ),
    decreases n,
{
    if n > 0 {
        parts_keep(parts, width, n - 1);
        let before: Seq<Seq<char>> = wrap::paragraphs(parts, width, n - 1);
        let more: Seq<Seq<char>> = wrap::paragraph_lines(wrap::without_crs(parts[n - 1]), width);
        run_together_add(before, more);
        dark_add(text::run_together(before), text::run_together(more));
        paragraph_keeps(wrap::without_crs(parts[n - 1]), width);
        returns_are_white(parts[n - 1]);
        assert(parts.take(n) =~= parts.take(n - 1) + seq![parts[n - 1]]);
        run_together_add(parts.take(n - 1), seq![parts[n - 1]]);
        one_line(parts[n - 1]);
        dark_add(text::run_together(parts.take(n - 1)), parts[n - 1]);
    } else {
        assert(parts.take(0) =~= Seq::<Seq<char>>::empty());
    }
}

proof fn split_keeps(s: Seq<char>)
    ensures
        dark(text::run_together(text::split_at_char(s, '\n'))) == dark(s),
    decreases s.len(),
{
    text::char_at_or_after_is_first(s, '\n', 0);
    match text::position(s, '\n') {
        Some(k) => {
            let rest: Seq<char> = text::tail(s, k + 1);
            split_keeps(rest);
            run_together_add(seq![text::head(s, k)], text::split_at_char(rest, '\n'));
            one_line(text::head(s, k));
            dark_add(text::head(s, k), text::run_together(text::split_at_char(rest, '\n')));
            assert(s =~= text::head(s, k) + (seq!['\n'] + rest));
            dark_add(text::head(s, k), seq!['\n'] + rest);
            dark_add(seq!['\n'], rest);
            nothing_dark(seq!['\n']);
            assert(Seq::<char>::empty() + dark(rest) =~= dark(rest));
        },
        None => {
            one_line(s);
        },
    }
}

/// A text that is wrapped in a cell loses nothing but white characters, and nothing changes its
/// order.
pub proof fn cells_keep_every_letter(s: Seq<char>, width: int)
    requires
        width >= 1,
    ensures
        dark(text::run_together(wrap::cell_lines(s, width))) == dark(s),
{
    let bare: Seq<char> = wrap::without_line_ends(s);
    let parts: Seq<Seq<char>> = text::split_at_char(bare, '\n');
    parts_keep(parts, width, parts.len() as int);
    assert(parts.take(parts.len() as int) =~= parts);
    split_keeps(bare);
    returns_are_white(s);
}

/// A text that fits in its cell and has no line end stays as it is.
pub proof fn short_texts_are_not_wrapped(s: Seq<char>, width: int)
    requires
        s.len() <= width,
        width >= 1,
        forall|i: int| 0 <= i < s.len() ==> #[trigger] s[i] != '\n' && s[i] != '\r',
    ensures
        wrap::cell_lines(s, width) == seq![s],
{
    assert(wrap::without_line_ends(s) == s);
    texts::texts_without_the_character_are_one_part(s, '\n');
    assert(wrap::without_crs(s) == s);
    reveal_with_fuel(wrap::paragraphs, 2);
    assert(wrap::paragraphs(seq![s], width, 1) =~= seq![s]);
}

proof fn put_keeps_dark(f: Filling, c: char, width: int)
    ensures
        dark(wrap::held(wrap::put(f, c, width))) == dark(wrap::held(f)) + dark(seq![c]),
{
    wrap::put_keeps(f, c, width);
    assert(wrap::held(f).push(c) =~= wrap::held(f) + seq![c]);
    dark_add(wrap::held(f), seq![c]);
}

proof fn spaces_keep_dark(f: Filling, n: int, width: int)
    ensures
        dark(wrap::held(wrap::put_spaces(f, n, width))) == dark(wrap::held(f)),
    decreases n,
{
    if n > 0 {
        spaces_keep_dark(f, n - 1, width);
        put_keeps_dark(wrap::put_spaces(f, n - 1, width), ' ', width);
        nothing_dark(seq![' ']);
        assert(dark(wrap::held(f)) + Seq::<char>::empty() =~= dark(wrap::held(f)));
    }
}

proof fn filling_keeps_dark(s: Seq<char>, width: int, n: int)
    requires
        0 <= n <= s.len(),
    ensures
        dark(wrap::held(wrap::filled(s, width, n))) == dark(s.take(n)),
    decreases n,
{
    if n > 0 {
        filling_keeps_dark(s, width, n - 1);
        let f: Filling = wrap::filled(s, width, n - 1);
        let c: char = s[n - 1];
        assert(s.take(n) =~= s.take(n - 1) + seq![c]);
        dark_add(s.take(n - 1), seq![c]);
        if c == '\n' || c == '\r' {
            wrap::run_together_push(f.full, f.open);
            assert(wrap::held(wrap::closed(f)) =~= wrap::held(f));
            nothing_dark(seq![c]);
            assert(dark(wrap::held(f)) + Seq::<char>::empty() =~= dark(wrap::held(f)));
        } else if c == '\t' {
            spaces_keep_dark(f, columns::tab_cells(f.cells, width), width);
            nothing_dark(seq![c]);
            assert(dark(wrap::held(f)) + Seq::<char>::empty() =~= dark(wrap::held(f)));
        } else {
            put_keeps_dark(f, c, width);
        }
    } else {
        assert(wrap::held(wrap::fresh()) =~= Seq::<char>::empty());
        assert(s.take(0) =~= Seq::<char>::empty());
    }
}

/// A text that is wrapped to rows loses nothing but white characters, and nothing changes its
/// order, whatever its characters are and however narrow the rows.
pub proof fn rows_keep_every_letter(s: Seq<char>, width: int)
    ensures
        dark(text::run_together(wrap::visual_lines(s, width))) == dark(s),
{
    let w: int = if width >= 1 {
        width
    } else {
        1
    };
    filling_keeps_dark(s, w, s.len() as int);
    let end: Filling = wrap::filled(s, w, s.len() as int);
    wrap::run_together_push(end.full, end.open);
    assert(s.take(s.len() as int) =~= s);
}

/// Whether every character of a line takes one cell.
pub open spec fn narrow(s: Seq<char>) -> bool {
    forall|i: int| 0 <= i < s.len() ==> columns::cells(#[trigger] s[i]) == 1
}

/// A filling of single cells in which no line is too long.
spec fn fits(f: Filling, width: int) -> bool {
    &&& forall|i: int|
        0 <= i < f.full.len() ==> (#[trigger] f.full[i]).len() <= width && narrow(f.full[i])
    &&& narrow(f.open)
    &&& f.open.len() == f.cells
    &&& f.cells <= width
    &&& match f.last_break {
        Some(at) => 0 < at.0 <= f.open.len() && at.1 == at.0,
        None => true,
    }
}

proof fn put_fits(f: Filling, c: char, width: int)
    requires
        width >= 1,
        fits(f, width),
        columns::cells(c) == 1,
    ensures
        fits(wrap::put(f, c, width), width),
{
    let g: Filling = wrap::roomy(f, 1, width);
    assert(fits(g, width)) by {
        if columns::leaves(f.cells, 1, width) && f.open.len() > 0 {
            match f.last_break {
                Some(at) => {
                    assert(narrow(text::head(f.open, at.0)));
                    assert(narrow(text::tail(f.open, at.0)));
                },
                None => {},
            }
        }
    }
}

proof fn spaces_fit(f: Filling, n: int, width: int)
    requires
        width >= 1,
        fits(f, width),
    ensures
        fits(wrap::put_spaces(f, n, width), width),
    decreases n,
{
    if n > 0 {
        spaces_fit(f, n - 1, width);
        put_fits(wrap::put_spaces(f, n - 1, width), ' ', width);
    }
}

proof fn filling_fits(s: Seq<char>, width: int, n: int)
    requires
        width >= 1,
        0 <= n <= s.len(),
        narrow(s),
    ensures
        fits(wrap::filled(s, width, n), width),
    decreases n,
{
    if n > 0 {
        filling_fits(s, width, n - 1);
        let f: Filling = wrap::filled(s, width, n - 1);
        let c: char = s[n - 1];
        if c == '\n' || c == '\r' {
        } else if c == '\t' {
            spaces_fit(f, columns::tab_cells(f.cells, width), width);
        } else {
            put_fits(f, c, width);
        }
    }
}

/// Rows of characters that take one cell each are no wider than asked for, and have only such
/// characters.
pub proof fn rows_fit(s: Seq<char>, width: int, i: int)
    requires
        width >= 1,
        narrow(s),
        0 <= i < wrap::visual_lines(s, width).len(),
    ensures
        wrap::visual_lines(s, width)[i].len() <= width,
        narrow(wrap::visual_lines(s, width)[i]),
{
    filling_fits(s, width, s.len() as int);
}

/// A text that is cut keeps its front, and a mark tells that something is missing; one that fits is
/// not cut.
pub proof fn cuts_are_marked(s: Seq<char>, max: int, i: int)
    requires
        max >= 1,
        0 <= i < s.len(),
    ensures
        s.len() <= max ==> fit::truncated(s, max) == s,
        s.len() > max ==> fit::truncated(s, max).len() == max && fit::truncated(s, max)[max - 1]
            == '…',
        s.len() > max && i < max - 1 ==> fit::truncated(s, max)[i] == s[i],
{
}

/// A text that fits in a column stands at its left, or at its right, with spaces beside it.
pub proof fn columns_are_filled_with_spaces(s: Seq<char>, width: int, i: int)
    requires
        s.len() <= width,
        0 <= i < width,
    ensures
        fit::left(s, width).len() == width,
        fit::right(s, width).len() == width,
        fit::left(s, width)[i] == (if i < s.len() {
            s[i]
        } else {
            ' '
        }),
        fit::right(s, width)[i] == (if i < width - s.len() {
            ' '
        } else {
            s[i - (width - s.len())]
        }),
{
}

proof fn everything_fits(s: Seq<char>, width: int, i: int)
    requires
        narrow(s),
        0 <= i <= s.len() <= width,
    ensures
        fit::fitting(s, width, i, i) == s.len(),
    decreases s.len() - i,
{
    if i < s.len() {
        everything_fits(s, width, i + 1);
    }
}

/// A row of characters that take one cell each is not cut where it fits; only spaces are added.
pub proof fn fitting_rows_are_padded_with_spaces(s: Seq<char>, width: int)
    requires
        narrow(s),
        s.len() <= width,
        width >= 1,
    ensures
        dark(fit::padded(s, width)) == dark(s),
        fit::padded(s, width).len() >= s.len(),
        fit::padded(s, width).take(s.len() as int) == s,
{
    everything_fits(s, width, 0);
    assert(text::head(s, s.len() as int) =~= s);
    if columns::text_columns(s) < width {
        let pad: Seq<char> = text::fill(' ', (width - columns::text_columns(s)) as nat);
        dark_add(s, pad);
        nothing_dark(pad);
        assert(dark(s) + Seq::<char>::empty() =~= dark(s));
    }
    assert(fit::padded(s, width).take(s.len() as int) =~= s);
}

/// White characters leave nothing dark.
pub proof fn white_is_not_dark(s: Seq<char>)
    requires
        forall|i: int| 0 <= i < s.len() ==> text::white(#[trigger] s[i]),
    ensures
        dark(s) == Seq::<char>::empty(),
{
    nothing_dark(s);
}

/// Lists of lines that are run together are run together one behind the other.
pub proof fn lists_run_together(a: Seq<Seq<char>>, b: Seq<Seq<char>>)
    ensures
        text::run_together(a + b) == text::run_together(a) + text::run_together(b),
{
    run_together_add(a, b);
}

/// The parts of a text that is split at its line ends have all that is dark in it.
pub proof fn split_lines_keep_every_letter(s: Seq<char>)
    ensures
        dark(text::run_together(text::split_at_char(s, '\n'))) == dark(s),
{
    split_keeps(s);
}

/// A single line run together is that line.
pub proof fn one_line_runs_together(s: Seq<char>)
    ensures
        text::run_together(seq![s]) == s,
{
    one_line(s);
}

/// Trimming a text keeps all that is dark in it.
pub proof fn trimming_keeps_every_letter(s: Seq<char>)
    ensures
        dark(text::trimmed(s)) == dark(s),
{
    dark_trims(s);
    dark_trims(text::trimmed_start(s));
}

} // verus!
