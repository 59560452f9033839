//! What the basic operations on texts give back.

use vstd::prelude::*;

use crate::text;

verus! {

proof fn start_is_dark(s: Seq<char>) -> (a: int)
    ensures
        0 <= a <= s.len(),
        text::trimmed_start(s) == s.subrange(a, s.len() as int),
        forall|i: int| 0 <= i < a ==> text::white(#[trigger] s[i]),
        a < s.len() ==> !text::white(s[a]),
    decreases s.len(),
{
    if s.len() > 0 && text::white(s[0]) {
        let rest: Seq<char> = s.subrange(1, s.len() as int);
        let b: int = start_is_dark(rest);
        assert(rest.subrange(b, rest.len() as int) =~= s.subrange(b + 1, s.len() as int));
        assert forall|i: int| 0 <= i < b + 1 implies text::white(#[trigger] s[i]) by {
            if i > 0 {
                assert(rest[i - 1] == s[i]);
            }
        }
        if b < rest.len() {
            assert(rest[b] == s[b + 1]);
        }
        b + 1
    } else {
        assert(s.subrange(0, s.len() as int) =~= s);
        0
    }
}

proof fn end_is_dark(s: Seq<char>) -> (b: int)
    ensures
        0 <= b <= s.len(),
        text::trimmed_end(s) == s.subrange(0, b),
        forall|i: int| b <= i < s.len() ==> text::white(#[trigger] s[i]),
        b > 0 ==> !text::white(s[b - 1]),
    decreases s.len(),
{
    if s.len() > 0 && text::white(s[s.len() - 1]) {
        let rest: Seq<char> = s.subrange(0, s.len() - 1);
        let b: int = end_is_dark(rest);
        assert(rest.subrange(0, b) =~= s.subrange(0, b));
        assert forall|i: int| b <= i < s.len() implies text::white(#[trigger] s[i]) by {
            if i < s.len() - 1 {
                assert(rest[i] == s[i]);
            }
        }
        if b > 0 {
            assert(rest[b - 1] == s[b - 1]);
        }
        b
    } else {
        assert(s.subrange(0, s.len() as int) =~= s);
        s.len() as int
    }
}

/// Trimming a text takes away the white characters at its ends, all of them and nothing else.
pub proof fn trimming_takes_the_white_ends(s: Seq<char>) -> (ends: (int, int))
    ensures
        0 <= ends.0 <= ends.1 <= s.len(),
        text::trimmed(s) == s.subrange(ends.0, ends.1),
        forall|i: int| 0 <= i < ends.0 ==> text::white(#[trigger] s[i]),
        forall|i: int| ends.1 <= i < s.len() ==> text::white(#[trigger] s[i]),
        ends.0 < ends.1 ==> !text::white(s[ends.0]) && !text::white(s[ends.1 - 1]),
{
    let a: int = start_is_dark(s);
    let rest: Seq<char> = s.subrange(a, s.len() as int);
    let b: int = end_is_dark(rest);
    assert(rest.subrange(0, b) =~= s.subrange(a, a + b));
    assert forall|i: int| a + b <= i < s.len() implies text::white(#[trigger] s[i]) by {
        assert(rest[i - a] == s[i]);
    }
    if b > 0 {
        assert(rest[b - 1] == s[a + b - 1]);
    }
    (a, a + b)
}

/// A text with no white character at its ends is left as it is.
pub proof fn nothing_else_is_trimmed(s: Seq<char>)
    requires
        s.len() > 0 ==> !text::white(s[0]) && !text::white(s[s.len() - 1]),
    ensures
        text::trimmed(s) == s,
{
}

/// A text keeps everything but the characters `c` at its end.
pub proof fn only_the_end_is_dropped(s: Seq<char>, c: char)
    ensures
        ({
            let kept: Seq<char> = text::without_trailing(s, c);
            &&& kept.len() <= s.len()
            &&& s == kept + text::fill(c, (s.len() - kept.len()) as nat)
            &&& kept.len() > 0 ==> kept[kept.len() - 1] != c
        }),
    decreases s.len(),
{
    let kept: Seq<char> = text::without_trailing(s, c);
    if s.len() > 0 && s[s.len() - 1] == c {
        let rest: Seq<char> = s.subrange(0, s.len() - 1);
        only_the_end_is_dropped(rest, c);
        assert(rest.push(c) =~= s);
        assert(s =~= kept + text::fill(c, (s.len() - kept.len()) as nat));
    } else {
        assert(s =~= kept + text::fill(c, 0));
    }
}

/// The number that the first `n` characters of a text spell, if they are digits.
pub open spec fn spelled(s: Seq<char>, n: int) -> int
    decreases n,
{
    if n <= 0 {
        0
    } else {
        10 * spelled(s, n - 1) + (s[n - 1] as int - '0' as int)
    }
}

proof fn spelled_before(s: Seq<char>, c: char, n: int)
    requires
        0 <= n <= s.len(),
    ensures
        spelled(s.push(c), n) == spelled(s, n),
    decreases n,
{
    if n > 0 {
        spelled_before(s, c, n - 1);
    }
}

/// A number is written in digits that spell it, without a zero before them.
pub proof fn numbers_are_spelled_out(n: nat)
    ensures
        text::decimal(n).len() >= 1,
        spelled(text::decimal(n), text::decimal(n).len() as int) == n,
        forall|i: int|
            0 <= i < text::decimal(n).len() ==> '0' <= #[trigger] text::decimal(n)[i] <= '9',
        n > 0 ==> text::decimal(n)[0] != '0',
    decreases n,
{
    if n >= 10 {
        numbers_are_spelled_out(n / 10);
        let front: Seq<char> = text::decimal(n / 10);
        let c: char = text::digit_char(n % 10);
        spelled_before(front, c, front.len() as int);
        assert(spelled(front.push(c), front.len() + 1int) == 10 * spelled(
            front.push(c),
            front.len() as int,
        ) + (c as int - '0' as int));
        assert(text::decimal(n)[0] == front[0]);
    } else {
        assert(spelled(text::decimal(n), 1) == 10 * spelled(text::decimal(n), 0) + (text::decimal(
            n,
        )[0] as int - '0' as int));
    }
}

/// The parts of a text do not hold the character that parts them.
pub proof fn parts_are_unbroken(s: Seq<char>, c: char, i: int, j: int)
    requires
        0 <= i < text::split_at_char(s, c).len(),
        0 <= j < text::split_at_char(s, c)[i].len(),
    ensures
        text::split_at_char(s, c)[i][j] != c,
    decreases s.len(),
{
    text::char_at_or_after_is_first(s, c, 0);
    match text::position(s, c) {
        Some(k) => {
            if i == 0 {
                assert(text::head(s, k)[j] == s[j]);
            } else {
                parts_are_unbroken(text::tail(s, k + 1), c, i - 1, j);
            }
        },
        None => {},
    }
}

/// Letters of the alphabet are lowered; every other ASCII character stays.
pub proof fn only_capitals_are_lowered(s: Seq<char>, i: int)
    requires
        0 <= i < s.len(),
    ensures
        text::lowered_text(s).len() == s.len(),
        'A' <= s[i] <= 'Z' ==> text::lowered_text(s)[i] as int == s[i] as int + 32,
        !('A' <= s[i] <= 'Z') ==> text::lowered_text(s)[i] == s[i],
{
}

proof fn found_first(s: Seq<char>, p: Seq<char>, i: int)
    requires
        0 <= i,
    ensures
        match text::text_at_or_after(s, p, i) {
            Some(k) => i <= k && k + p.len() <= s.len() && s.subrange(k, k + p.len()) == p
                && forall|j: int|
                i <= j < k && j + p.len() <= s.len() ==> #[trigger] s.subrange(j, j + p.len()) != p,
            None => forall|j: int|
                i <= j && j + p.len() <= s.len() ==> #[trigger] s.subrange(j, j + p.len()) != p,
        },
    decreases s.len() - i,
{
    if i + p.len() <= s.len() && s.subrange(i, i + p.len()) != p && i < s.len() {
        found_first(s, p, i + 1);
    }
}

/// A text is found where it stands first; it is not found exactly where it stands nowhere.
pub proof fn texts_are_found_where_they_stand_first(s: Seq<char>, p: Seq<char>)
    ensures
        match text::find(s, p) {
            Some(k) => 0 <= k && k + p.len() <= s.len() && s.subrange(k, k + p.len()) == p
                && forall|j: int|
                0 <= j < k && j + p.len() <= s.len() ==> #[trigger] s.subrange(j, j + p.len()) != p,
            None => forall|j: int|
                0 <= j && j + p.len() <= s.len() ==> #[trigger] s.subrange(j, j + p.len()) != p,
        },
        text::includes(s, p) <==> text::find(s, p) is Some,
{
    found_first(s, p, 0);
}

/// A mark that does not begin earlier parts a text into what stands before and behind it.
pub proof fn texts_part_at_their_mark(a: Seq<char>, mark: Seq<char>, b: Seq<char>)
    requires
        mark.len() > 0,
        forall|i: int| 0 <= i < a.len() ==> #[trigger] a[i] != mark[0],
    ensures
        text::around(a + mark + b, mark) == Some((a, b)),
{
    let s: Seq<char> = a + mark + b;
    texts_are_found_where_they_stand_first(s, mark);
    let k: int = a.len() as int;
    assert(s.subrange(k, k + mark.len()) =~= mark);
    let found: int = text::find(s, mark)->0;
    if found < k {
        assert(s.subrange(found, found + mark.len())[0] == s[found]);
        assert(s[found] == a[found]);
    }
    assert(text::head(s, k) =~= a);
    assert(text::tail(s, k + mark.len()) =~= b);
}

/// A text in which a mark does not begin anywhere is not parted by it.
pub proof fn texts_without_the_mark_are_whole(s: Seq<char>, mark: Seq<char>)
    requires
        mark.len() > 0,
        forall|i: int| 0 <= i < s.len() ==> #[trigger] s[i] != mark[0],
    ensures
        text::around(s, mark) is None,
        !text::includes(s, mark),
{
    texts_are_found_where_they_stand_first(s, mark);
    if text::find(s, mark) is Some {
        let k: int = text::find(s, mark)->0;
        assert(s.subrange(k, k + mark.len())[0] == s[k]);
    }
}

/// A character is found where it stands first.
pub proof fn characters_are_found_first(a: Seq<char>, c: char, b: Seq<char>)
    requires
        forall|i: int| 0 <= i < a.len() ==> #[trigger] a[i] != c,
    ensures
        text::position(a + seq![c] + b, c) == Some(a.len() as int),
{
    let s: Seq<char> = a + seq![c] + b;
    text::char_at_or_after_is_first(s, c, 0);
    let k: int = a.len() as int;
    assert(s[k] == c);
    let found: int = text::position(s, c)->0;
    if found < k {
        assert(s[found] == a[found]);
    }
}

/// A text without a character is one part.
pub proof fn texts_without_the_character_are_one_part(s: Seq<char>, c: char)
    requires
        forall|i: int| 0 <= i < s.len() ==> #[trigger] s[i] != c,
    ensures
        text::split_at_char(s, c) == seq![s],
        text::position(s, c) is None,
{
    text::char_at_or_after_is_first(s, c, 0);
}

/// The first part of a text stands before the first separator, the others come from the rest.
pub proof fn texts_split_at_every_separator(a: Seq<char>, c: char, b: Seq<char>)
    requires
        forall|i: int| 0 <= i < a.len() ==> #[trigger] a[i] != c,
    ensures
        text::split_at_char(a + seq![c] + b, c) == seq![a] + text::split_at_char(b, c),
{
    characters_are_found_first(a, c, b);
    let s: Seq<char> = a + seq![c] + b;
    let k: int = a.len() as int;
    assert(text::head(s, k) =~= a);
    assert(text::tail(s, k + 1) =~= b);
}

proof fn last_is_found(s: Seq<char>, c: char, n: int)
    requires
        0 <= n <= s.len(),
    ensures
        match text::last_before(s, c, n) {
            Some(k) => 0 <= k < n && s[k] == c && forall|j: int| k < j < n ==> s[j] != c,
            None => forall|j: int| 0 <= j < n ==> s[j] != c,
        },
    decreases n,
{
    if n > 0 && s[n - 1] != c {
        last_is_found(s, c, n - 1);
    }
}

/// What follows the last separator is the last part, and the whole where there is none.
pub proof fn the_last_part_follows_the_last_separator(a: Seq<char>, c: char, b: Seq<char>)
    requires
        forall|i: int| 0 <= i < b.len() ==> #[trigger] b[i] != c,
    ensures
        text::after_last(a + seq![c] + b, c) == b,
        text::after_last(b, c) == b,
{
    let s: Seq<char> = a + seq![c] + b;
    last_is_found(s, c, s.len() as int);
    last_is_found(b, c, b.len() as int);
    let k: int = a.len() as int;
    assert(s[k] == c);
    let found: int = text::last_before(s, c, s.len() as int)->0;
    if found > k {
        assert(s[found] == b[found - k - 1]);
    }
    assert(text::tail(s, k + 1) =~= b);
}

proof fn digits_spell(s: Seq<char>, n: int)
    requires
        0 <= n <= s.len(),
        forall|i: int| 0 <= i < n ==> '0' <= #[trigger] s[i] <= '9',
    ensures
        text::digits_value(s, n) == spelled(s, n),
    decreases n,
{
    if n > 0 {
        digits_spell(s, n - 1);
        assert('0' <= s[n - 1] <= '9');
    }
}

/// A number that is written in digits is read as that number, unless it is too large.
pub proof fn numbers_are_read_back(n: nat, max: nat)
    ensures
        text::number(text::decimal(n), max) == (if n <= max {
            Some(n)
        } else {
            None
        }),
{
    let d: Seq<char> = text::decimal(n);
    numbers_are_spelled_out(n);
    assert(d[0] != '+') by {
        assert('0' <= d[0] <= '9');
    }
    assert forall|i: int| 0 <= i < d.len() implies text::digit(#[trigger] d[i]) by {
        assert('0' <= d[i] <= '9');
    }
    digits_spell(d, d.len() as int);
}

} // verus!
