//! Fitting text into columns, and columns into a width.

use vstd::prelude::*;

use crate::columns;
use crate::text;

verus! {

/// `s` in exactly `width` characters: padded with spaces, or cut short with an ellipsis.
pub open spec fn fitted(s: Seq<char>, width: int, right_align: bool) -> Seq<char> {
    if width <= 0 {
        Seq::empty()
    } else if s.len() > width {
        text::head(s, width - 1).push('…')
    } else if right_align {
        text::fill(' ', (width - s.len()) as nat) + s
    } else {
        s + text::fill(' ', (width - s.len()) as nat)
    }
}

pub fn fit(s: &str, width: usize, right_align: bool) -> (r: String)
    ensures
        r@ == fitted(s@, width as int, right_align),
{
    if width == 0 {
        return String::new();
    }
    let len: usize = text::length(s);
    if len > width {
        let mut out: String = text::head_of(s, width - 1);
        out.push('…');
        return out;
    }
    let pad: String = text::filled(' ', width - len);
    if right_align {
        text::cat2(pad.as_str(), s)
    } else {
        text::cat2(s, pad.as_str())
    }
}

pub open spec fn left(s: Seq<char>, width: int) -> Seq<char> {
    fitted(s, width, false)
}

pub open spec fn right(s: Seq<char>, width: int) -> Seq<char> {
    fitted(s, width, true)
}

pub fn fit_left(s: &str, width: usize) -> (r: String)
    ensures
        r@ == left(s@, width as int),
{
    fit(s, width, false)
}

pub fn fit_right(s: &str, width: usize) -> (r: String)
    ensures
        r@ == right(s@, width as int),
{
    fit(s, width, true)
}

/// A fitted text has exactly the width it was fitted to.
pub proof fn fitted_has_width(s: Seq<char>, width: int, right_align: bool)
    requires
        width >= 0,
    ensures
        fitted(s, width, right_align).len() == width,
{
}

/// A text of the right length fits as it is.
pub proof fn fitted_again(s: Seq<char>, width: int, right_align: bool, again: bool)
    requires
        width >= 0,
    ensures
        fitted(fitted(s, width, right_align), width, again) == fitted(s, width, right_align),
{
    let f: Seq<char> = fitted(s, width, right_align);
    assert(fitted(f, width, again) =~= f);
}

/// `s`, or its first characters and an ellipsis where it has more than `max_chars`.
pub open spec fn truncated(s: Seq<char>, max_chars: int) -> Seq<char> {
    if max_chars <= 0 {
        Seq::empty()
    } else if s.len() > max_chars {
        text::head(s, max_chars - 1).push('…')
    } else {
        s
    }
}

pub fn truncate_label(s: &str, max_chars: usize) -> (r: String)
    ensures
        r@ == truncated(s@, max_chars as int),
{
    if max_chars == 0 {
        return String::new();
    }
    if text::length(s) > max_chars {
        let mut out: String = text::head_of(s, max_chars - 1);
        out.push('…');
        out
    } else {
        text::copy(s)
    }
}

/// A truncated text never has more than the characters it was truncated to.
pub proof fn truncated_is_short(s: Seq<char>, max_chars: int)
    requires
        max_chars >= 0,
    ensures
        truncated(s, max_chars).len() <= max_chars,
{
}

/// How many of the characters of `s` from `i` on fit beside `used` cells in `width` cells.
pub open spec fn fitting(s: Seq<char>, width: int, used: int, i: int) -> int
    decreases s.len() - i,
{
    if i >= s.len() || columns::leaves(used, columns::cells(s[i]), width) {
        i
    } else {
        fitting(s, width, used + columns::cells(s[i]), i + 1)
    }
}

/// `s` padded with spaces to `width` columns; cut where it takes that many or more.
pub open spec fn padded(s: Seq<char>, width: int) -> Seq<char> {
    let w: int = if width >= 1 {
        width
    } else {
        1
    };
    if columns::text_columns(s) >= w {
        text::head(s, fitting(s, w, 0, 0))
    } else {
        s + text::fill(' ', (w - columns::text_columns(s)) as nat)
    }
}

/// How many characters of a text fit in so many cells.
pub fn fitting_count(s: &str, w: usize) -> (r: usize)
    ensures
        r == fitting(s@, w as int, 0, 0),
        r <= s@.len(),
{
    let v: Vec<char> = text::chars_of(s);
    let n: usize = v.len();
    let mut used: usize = 0;
    let mut i: usize = 0;
    while i < n && !columns::overflows(used, columns::cell_width(v[i]), w)
        invariant
            i <= n,
            n == v@.len(),
            v@ == s@,
            used <= w,
            fitting(s@, w as int, 0, 0) == fitting(s@, w as int, used as int, i as int),
        decreases n - i,
    {
        used = used + columns::cell_width(v[i]);
        i += 1;
    }
    i
}

pub fn pad_to_width(s: &str, width: usize) -> (r: String)
    ensures
        r@ == padded(s@, width as int),
{
    let w: usize = text::max_of(width, 1);
    let current: usize = columns::text_width(s);
    if current >= w {
        return text::head_of(s, fitting_count(s, w));
    }
    let pad: String = text::filled(' ', w - current);
    text::cat2(s, pad.as_str())
}

/// `s` padded with spaces to `width` columns; left alone where it takes that many or more.
pub open spec fn padded_right(s: Seq<char>, width: int) -> Seq<char> {
    if columns::text_columns(s) >= width {
        s
    } else {
        s + text::fill(' ', (width - columns::text_columns(s)) as nat)
    }
}

pub fn pad_line_right(s: &str, width: usize) -> (r: String)
    ensures
        r@ == padded_right(s@, width as int),
{
    let current: usize = columns::text_width(s);
    if current >= width {
        return text::copy(s);
    }
    let pad: String = text::filled(' ', width - current);
    text::cat2(s, pad.as_str())
}

/// `s` with spaces behind it where it has less than `n` characters.
pub open spec fn at_least(s: Seq<char>, n: int) -> Seq<char> {
    s + text::fill(' ', text::monus(n, s.len() as int) as nat)
}

pub fn pad_end(s: &str, n: usize) -> (r: String)
    ensures
        r@ == at_least(s@, n as int),
{
    let pad: String = text::filled(' ', text::minus(n, text::length(s)));
    text::cat2(s, pad.as_str())
}

/// `s` with spaces before it where it has less than `n` characters.
pub open spec fn right_at_least(s: Seq<char>, n: int) -> Seq<char> {
    text::fill(' ', text::monus(n, s.len() as int) as nat) + s
}

pub fn pad_start(s: &str, n: usize) -> (r: String)
    ensures
        r@ == right_at_least(s@, n as int),
{
    let pad: String = text::filled(' ', text::minus(n, text::length(s)));
    text::cat2(pad.as_str(), s)
}

pub open spec fn sum(v: Seq<usize>) -> int
    decreases v.len(),
{
    if v.len() == 0 {
        0
    } else {
        sum(v.drop_last()) + v.last()
    }
}

/// The widths of the first `n` columns, from the last one on, made narrower by `over` cells
/// altogether, each no further than to its floor.
pub open spec fn shrunk(widths: Seq<usize>, floors: Seq<usize>, over: int, n: int) -> Seq<usize>
    decreases n,
{
    if n <= 0 || over <= 0 {
        widths
    } else {
        let give: int = text::min_int(
            text::monus(widths[n - 1] as int, floors[n - 1] as int),
            over,
        );
        shrunk(
            widths.update(n - 1, (widths[n - 1] - give) as usize),
            floors,
            over - give,
            n - 1,
        )
    }
}

/// The sum of three, four and five widths.
pub proof fn sums_of_few(a: usize, b: usize, c: usize, d: usize, e: usize)
    ensures
        sum(seq![a, b, c]) == a + b + c,
        sum(seq![a, b, c, d]) == a + b + c + d,
        sum(seq![a, b, c, d, e]) == a + b + c + d + e,
{
    reveal_with_fuel(sum, 4);
    let three: Seq<usize> = seq![a, b, c];
    let four: Seq<usize> = seq![a, b, c, d];
    let five: Seq<usize> = seq![a, b, c, d, e];
    assert(three.drop_last() =~= seq![a, b]);
    assert(three.drop_last().drop_last() =~= seq![a]);
    assert(sum(three) == a + b + c);
    assert(four.drop_last() =~= three);
    assert(sum(four) == sum(three) + d);
    assert(five.drop_last() =~= four);
    assert(sum(five) == sum(four) + e);
}

/// The widths of columns that share `total` cells with their separators: their preferred widths,
/// made narrower from the right where there is not enough room, with what is left over given to
/// the last one. Where not even the smallest widths fit, those are made narrower in turn, each to
/// one cell at least.
pub open spec fn allocated(
    total: int,
    mins: Seq<usize>,
    prefs: Seq<usize>,
    separators: int,
) -> Seq<usize> {
    let least: int = sum(mins) + separators;
    if total <= least {
        if total > separators {
            shrunk(mins, Seq::new(mins.len(), |i: int| 1usize), least - total, mins.len() as int)
        } else {
            mins
        }
    } else {
        let used: int = sum(prefs) + separators;
        let kept: Seq<usize> = shrunk(prefs, mins, used - total, prefs.len() as int);
        let spare: int = total - (sum(kept) + separators);
        if spare > 0 && kept.len() > 0 {
            kept.update(kept.len() - 1, (kept.last() + spare) as usize)
        } else {
            kept
        }
    }
}

proof fn shrunk_has_length(widths: Seq<usize>, floors: Seq<usize>, over: int, n: int)
    requires
        n <= widths.len(),
    ensures
        shrunk(widths, floors, over, n).len() == widths.len(),
    decreases n,
{
    if n > 0 && over > 0 {
        let give: int = text::min_int(
            text::monus(widths[n - 1] as int, floors[n - 1] as int),
            over,
        );
        shrunk_has_length(
            widths.update(n - 1, (widths[n - 1] - give) as usize),
            floors,
            over - give,
            n - 1,
        );
    }
}

/// There are as many widths as columns.
pub proof fn every_column_has_a_width(
    total: int,
    mins: Seq<usize>,
    prefs: Seq<usize>,
    separators: int,
)
    requires
        mins.len() == prefs.len(),
    ensures
        allocated(total, mins, prefs, separators).len() == mins.len(),
{
    let least: int = sum(mins) + separators;
    shrunk_has_length(
        mins,
        Seq::new(mins.len(), |i: int| 1usize),
        least - total,
        mins.len() as int,
    );
    let used: int = sum(prefs) + separators;
    shrunk_has_length(prefs, mins, used - total, prefs.len() as int);
}

proof fn sum_update(v: Seq<usize>, i: int, x: usize)
    requires
        0 <= i < v.len(),
    ensures
        sum(v.update(i, x)) == sum(v) - v[i] + x,
    decreases v.len(),
{
    if i == v.len() - 1 {
        assert(v.update(i, x).drop_last() =~= v.drop_last());
    } else {
        sum_update(v.drop_last(), i, x);
        assert(v.update(i, x).drop_last() =~= v.drop_last().update(i, x));
    }
}

proof fn sum_not_less(v: Seq<usize>, i: int)
    requires
        0 <= i < v.len(),
    ensures
        sum(v) >= v[i],
        sum(v) >= 0,
    decreases v.len(),
{
    if i < v.len() - 1 {
        sum_not_less(v.drop_last(), i);
        assert(v.drop_last()[i] == v[i]);
    } else {
        sum_not_negative(v.drop_last());
    }
}

proof fn sum_not_negative(v: Seq<usize>)
    ensures
        sum(v) >= 0,
    decreases v.len(),
{
    if v.len() > 0 {
        sum_not_negative(v.drop_last());
    }
}

fn total_of(v: &Vec<usize>) -> (r: usize)
    requires
        sum(v@) <= usize::MAX,
    ensures
        r == sum(v@),
{
    let mut out: usize = 0;
    let mut i: usize = 0;
    assert(v@.take(0) =~= Seq::<usize>::empty());
    while i < v.len()
        invariant
            i <= v@.len(),
            out == sum(v@.take(i as int)),
            sum(v@) <= usize::MAX,
        decreases v@.len() - i,
    {
        proof {
            assert(v@.take(i + 1).drop_last() =~= v@.take(i as int));
            sum_of_take(v@, i + 1);
        }
        out = out + v[i];
        i += 1;
    }
    assert(v@.take(v@.len() as int) =~= v@);
    out
}

proof fn sum_of_take(v: Seq<usize>, n: int)
    requires
        0 <= n <= v.len(),
    ensures
        sum(v.take(n)) <= sum(v),
    decreases v.len(),
{
    if n < v.len() {
        sum_of_take(v.drop_last(), n);
        assert(v.drop_last().take(n) =~= v.take(n));
    } else {
        assert(v.take(n) =~= v);
    }
}

fn shrink(widths: Vec<usize>, floors: &Vec<usize>, over: usize) -> (r: Vec<usize>)
    requires
        floors@.len() == widths@.len(),
    ensures
        r@ == shrunk(widths@, floors@, over as int, widths@.len() as int),
        r@.len() == widths@.len(),
        sum(r@) <= sum(widths@),
{
    let mut out: Vec<usize> = widths;
    let mut left: usize = over;
    let mut n: usize = out.len();
    while n > 0 && left > 0
        invariant
            n <= out@.len(),
            out@.len() == widths@.len(),
            floors@.len() == widths@.len(),
            sum(out@) <= sum(widths@),
            shrunk(widths@, floors@, over as int, widths@.len() as int) == shrunk(
                out@,
                floors@,
                left as int,
                n as int,
            ),
        decreases n,
    {
        let give: usize = text::min_of(text::minus(out[n - 1], floors[n - 1]), left);
        let narrower: usize = out[n - 1] - give;
        proof {
            sum_update(out@, n - 1, narrower);
        }
        out.set(n - 1, narrower);
        left = left - give;
        n -= 1;
    }
    out
}

pub fn allocate_columns(
    total: usize,
    mins: &Vec<usize>,
    prefs: &Vec<usize>,
    separators: usize,
) -> (r: Vec<usize>)
    requires
        mins@.len() == prefs@.len(),
        sum(mins@) + separators <= usize::MAX,
        sum(prefs@) + separators <= usize::MAX,
    ensures
        r@ == allocated(total as int, mins@, prefs@, separators as int),
        r@.len() == mins@.len(),
{
    proof {
        sum_not_negative(mins@);
        sum_not_negative(prefs@);
    }
    let least: usize = total_of(mins) + separators;
    if total <= least {
        let compact: Vec<usize> = mins.clone();
        assert(compact@ =~= mins@);
        if total > separators {
            let mut ones: Vec<usize> = Vec::new();
            let mut i: usize = 0;
            while i < mins.len()
                invariant
                    i <= mins@.len(),
                    ones@ == Seq::new(i as nat, |j: int| 1usize),
                decreases mins@.len() - i,
            {
                ones.push(1);
                i += 1;
                assert(ones@ =~= Seq::new(i as nat, |j: int| 1usize));
            }
            return shrink(compact, &ones, least - total);
        }
        return compact;
    }
    let widths: Vec<usize> = prefs.clone();
    assert(widths@ =~= prefs@);
    let used: usize = total_of(&widths) + separators;
    let mut kept: Vec<usize> = shrink(widths, mins, text::minus(used, total));
    proof {
        sum_not_negative(kept@);
        if used <= total {
            assert(kept@ == prefs@);
        }
    }
    let now: usize = total_of(&kept) + separators;
    if now < total && kept.len() > 0 {
        let last: usize = kept.len() - 1;
        proof {
            sum_not_less(kept@, last as int);
        }
        let wider: usize = kept[last] + (total - now);
        kept.set(last, wider);
    }
    kept
}

proof fn shrunk_sum(widths: Seq<usize>, floors: Seq<usize>, over: int, n: int)
    requires
        0 <= n <= widths.len(),
        widths.len() == floors.len(),
        0 <= over,
        forall|i: int| 0 <= i < n ==> #[trigger] widths[i] >= floors[i],
    ensures
        shrunk(widths, floors, over, n).len() == widths.len(),
        sum(shrunk(widths, floors, over, n)) >= sum(widths) - over,
        sum(widths.take(n)) - sum(floors.take(n)) >= over ==> sum(
            shrunk(widths, floors, over, n),
        ) == sum(widths) - over,
        forall|i: int|
            0 <= i < n ==> floors[i] <= #[trigger] shrunk(widths, floors, over, n)[i] <= widths[i],
        forall|i: int|
            n <= i < widths.len() ==> #[trigger] shrunk(widths, floors, over, n)[i] == widths[i],
    decreases n,
{
    if n > 0 && over > 0 {
        let give: int = text::min_int(
            text::monus(widths[n - 1] as int, floors[n - 1] as int),
            over,
        );
        let next: Seq<usize> = widths.update(n - 1, (widths[n - 1] - give) as usize);
        sum_update(widths, n - 1, (widths[n - 1] - give) as usize);
        shrunk_sum(next, floors, over - give, n - 1);
        assert(next.take(n - 1) =~= widths.take(n).drop_last());
        assert(floors.take(n - 1) =~= floors.take(n).drop_last());
        assert(sum(widths.take(n)) == sum(next.take(n - 1)) + widths[n - 1]);
        assert(sum(floors.take(n)) == sum(floors.take(n - 1)) + floors[n - 1]);
        same_sums(next.take(n - 1), floors.take(n - 1));
    } else {
        same_sums(widths.take(n), floors.take(n));
    }
}

proof fn same_sums(a: Seq<usize>, b: Seq<usize>)
    requires
        a.len() == b.len(),
        forall|i: int| 0 <= i < a.len() ==> #[trigger] a[i] >= b[i],
    ensures
        sum(a) >= sum(b),
    decreases a.len(),
{
    if a.len() > 0 {
        assert forall|i: int| 0 <= i < a.drop_last().len() implies #[trigger] a.drop_last()[i]
            >= b.drop_last()[i] by {
            assert(a[i] >= b[i]);
        }
        same_sums(a.drop_last(), b.drop_last());
        assert(a[a.len() - 1] >= b[a.len() - 1]);
    }
}

/// Where the smallest widths fit, the columns and their separators take exactly the total, and
/// no column is narrower than its smallest width.
pub proof fn columns_take_the_total(
    total: int,
    mins: Seq<usize>,
    prefs: Seq<usize>,
    separators: int,
)
    requires
        0 < mins.len() == prefs.len(),
        total <= usize::MAX,
        sum(mins) + separators < total,
        0 <= separators,
        forall|i: int| 0 <= i < mins.len() ==> #[trigger] prefs[i] >= mins[i],
    ensures
        sum(allocated(total, mins, prefs, separators)) + separators == total,
        forall|i: int|
            0 <= i < mins.len() ==> #[trigger] allocated(total, mins, prefs, separators)[i]
                >= mins[i],
{
    let used: int = sum(prefs) + separators;
    let n: int = prefs.len() as int;
    let kept: Seq<usize> = shrunk(prefs, mins, used - total, n);
    assert(prefs.take(n) =~= prefs);
    assert(mins.take(n) =~= mins);
    if used > total {
        shrunk_sum(prefs, mins, used - total, n);
    }
    let spare: int = total - (sum(kept) + separators);
    if spare > 0 {
        sum_not_less(kept, kept.len() - 1);
        sum_update(kept, kept.len() - 1, (kept.last() + spare) as usize);
    }
}

/// Where the smallest widths do not fit but one cell each does, the columns and their separators
/// take exactly the total too.
pub proof fn narrow_columns_take_the_total(
    total: int,
    mins: Seq<usize>,
    prefs: Seq<usize>,
    separators: int,
)
    requires
        mins.len() == prefs.len(),
        0 <= separators,
        separators + mins.len() <= total <= sum(mins) + separators,
        separators < total,
        forall|i: int| 0 <= i < mins.len() ==> #[trigger] mins[i] >= 1,
    ensures
        sum(allocated(total, mins, prefs, separators)) + separators == total,
        forall|i: int|
            0 <= i < mins.len() ==> 1 <= #[trigger] allocated(total, mins, prefs, separators)[i]
                <= mins[i],
{
    let n: int = mins.len() as int;
    let ones: Seq<usize> = Seq::new(mins.len(), |i: int| 1usize);
    assert(mins.take(n) =~= mins);
    assert(ones.take(n) =~= ones);
    sum_of_ones(mins.len());
    shrunk_sum(mins, ones, sum(mins) + separators - total, n);
}

proof fn sum_of_ones(n: nat)
    ensures
        sum(Seq::new(n, |i: int| 1usize)) == n,
    decreases n,
{
    let v: Seq<usize> = Seq::new(n, |i: int| 1usize);
    if n > 0 {
        sum_of_ones((n - 1) as nat);
        assert(v.drop_last() =~= Seq::new((n - 1) as nat, |i: int| 1usize));
    }
}

/// The characters `start .. start + len` of `s`, as far as it has them.
pub open spec fn slice(s: Seq<char>, start: int, len: int) -> Seq<char> {
    text::head(text::tail(s, start), len)
}

pub fn take_chars(s: &str, start: usize, len: usize) -> (r: String)
    ensures
        r@ == slice(s@, start as int, len as int),
{
    let rest: String = text::tail_of(s, start);
    text::head_of(rest.as_str(), len)
}

/// Where column `i` starts in a line of a one-character marker and columns one space apart.
pub open spec fn column_start(widths: Seq<usize>, i: int) -> int
    decreases i,
{
    if i <= 0 {
        1
    } else {
        column_start(widths, i - 1) + widths[i - 1] + 1
    }
}

/// The columns of a line.
pub open spec fn columns_of(line: Seq<char>, widths: Seq<usize>) -> Seq<Seq<char>> {
    Seq::new(
        widths.len(),
        |i: int| slice(line, column_start(widths, i), widths[i] as int),
    )
}

pub fn split_marker_and_columns(line: &str, widths: &Vec<usize>) -> (r: Option<
    (String, Vec<String>),
>)
    ensures
        match r {
            Some(mc) => widths@.len() > 0 && mc.1@.len() == widths@.len() && mc.0@ == text::head(line@, 1) && text::texts(mc.1@)
                == columns_of(line@, widths@),
            None => widths@.len() == 0,
        },
{
    broadcast use text::group_texts;

    if widths.len() == 0 {
        return None;
    }
    let marker: String = text::head_of(line, 1);
    let len: usize = text::length(line);
    let mut cols: Vec<String> = Vec::new();
    let mut pos: usize = 1;
    let mut i: usize = 0;
    assert(text::texts(cols@) =~= columns_of(line@, widths@).take(0));
    while i < widths.len()
        invariant
            i <= widths@.len(),
            line@.len() <= usize::MAX,
            pos == text::min_int(column_start(widths@, i as int), usize::MAX as int),
            text::texts(cols@) == columns_of(line@, widths@).take(i as int),
        decreases widths@.len() - i,
    {
        let cell: String = take_chars(line, pos, widths[i]);
        proof {
            assert(cell@ =~= slice(
                line@,
                column_start(widths@, i as int),
                widths@[i as int] as int,
            ));
            assert(columns_of(line@, widths@).take(i + 1) =~= columns_of(line@, widths@).take(
                i as int,
            ).push(cell@));
        }
        cols.push(cell);
        pos = pos.saturating_add(widths[i]).saturating_add(1);
        i += 1;
    }
    assert(columns_of(line@, widths@).take(widths@.len() as int) =~= columns_of(line@, widths@));
    Some((marker, cols))
}

} // verus!
