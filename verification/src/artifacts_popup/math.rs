//! Formulas in colour.

use vstd::prelude::*;

use crate::artifacts_popup::spans;
use crate::style;
use crate::style::Piece;
use crate::style::Span;
use crate::style::Style;
use crate::style::Theme;
use crate::text;

verus! {

/// Where the number ends that goes on at `i`.
pub open spec fn number_end(s: Seq<char>, i: int) -> int
    decreases s.len() - i,
{
    if 0 <= i < s.len() && (text::digit(s[i]) || s[i] == '.' || s[i] == ',' || s[i] == '/') {
        number_end(s, i + 1)
    } else {
        i
    }
}

/// Where the letters end that go on at `i`.
pub open spec fn letters_end(s: Seq<char>, i: int) -> int
    decreases s.len() - i,
{
    if 0 <= i < s.len() && text::alpha(s[i]) {
        letters_end(s, i + 1)
    } else {
        i
    }
}

/// Whether a character is an operator.
pub open spec fn operator(c: char) -> bool {
    c == '+' || c == '-' || c == '=' || c == '*' || c == '/' || c == '^' || c == '_' || c == '('
        || c == ')' || c == '[' || c == ']'
}

/// The token at `i`: its end and its style.
pub open spec fn token(s: Seq<char>, i: int, base: Style, theme: Theme) -> (int, Style) {
    if text::digit(s[i]) {
        (number_end(s, i + 1), base.fg(theme.hl.number).bold())
    } else if operator(s[i]) {
        (i + 1, base.fg(theme.hl.operator).bold())
    } else if s[i] == '\\' {
        (letters_end(s, i + 1), base.fg(theme.hl.keyword).bold())
    } else {
        (i + 1, base)
    }
}

proof fn number_goes_on(s: Seq<char>, i: int)
    requires
        0 <= i <= s.len(),
    ensures
        i <= number_end(s, i) <= s.len(),
    decreases s.len() - i,
{
    if i < s.len() {
        number_goes_on(s, i + 1);
    }
}

proof fn letters_go_on(s: Seq<char>, i: int)
    requires
        0 <= i <= s.len(),
    ensures
        i <= letters_end(s, i) <= s.len(),
    decreases s.len() - i,
{
    if i < s.len() {
        letters_go_on(s, i + 1);
    }
}

/// Every token has a character and ends in the text.
pub proof fn token_goes_on(s: Seq<char>, i: int, base: Style, theme: Theme)
    requires
        0 <= i < s.len(),
    ensures
        i < token(s, i, base, theme).0 <= s.len(),
{
    number_goes_on(s, i + 1);
    letters_go_on(s, i + 1);
}

/// The tokens from `i` on.
pub open spec fn pieces_from(s: Seq<char>, base: Style, theme: Theme, i: int) -> Seq<Piece>
    decreases s.len() - i,
{
    if i < 0 || i >= s.len() {
        Seq::empty()
    } else {
        proof {
            token_goes_on(s, i, base, theme);
        }
        let (end, look) = token(s, i, base, theme);
        seq![style::piece(s.subrange(i, end), look)] + pieces_from(s, base, theme, end)
    }
}

/// A formula in colour.
pub open spec fn math_pieces(s: Seq<char>, base: Style, theme: Theme) -> Seq<Piece> {
    spans::or_empty(pieces_from(s, base, theme, 0), base)
}

fn token_at(v: &Vec<char>, i: usize, base: Style, theme: &Theme) -> (r: (usize, Style))
    requires
        i < v@.len(),
    ensures
        (r.0 as int, r.1) == token(v@, i as int, base, *theme),
        i < r.0 <= v@.len(),
{
    proof {
        token_goes_on(v@, i as int, base, *theme);
    }
    let total: usize = v.len();
    assert(i < total);
    let c: char = v[i];
    let mut end: usize = i + 1;
    if text::is_digit(c) {
        while end < v.len() && (text::is_digit(v[end]) || v[end] == '.' || v[end] == ',' || v[end]
            == '/')
            invariant
                i < end <= v@.len(),
                number_end(v@, i + 1) == number_end(v@, end as int),
            decreases v@.len() - end,
        {
            end += 1;
        }
        (end, base.fg(theme.hl.number).bold())
    } else if c == '+' || c == '-' || c == '=' || c == '*' || c == '/' || c == '^' || c == '_' || c
        == '(' || c == ')' || c == '[' || c == ']' {
        (end, base.fg(theme.hl.operator).bold())
    } else if c == '\\' {
        while end < v.len() && text::is_alpha(v[end])
            invariant
                i < end <= v@.len(),
                letters_end(v@, i + 1) == letters_end(v@, end as int),
            decreases v@.len() - end,
        {
            end += 1;
        }
        (end, base.fg(theme.hl.keyword).bold())
    } else {
        (end, base)
    }
}

pub fn styled_math_spans(s: &str, base: Style, theme: &Theme) -> (r: Vec<Span>)
    ensures
        style::pieces(r@) == math_pieces(s@, base, *theme),
{
    broadcast use {style::group_lines, style::group_piece_lists};

    let v: Vec<char> = text::chars_of(s);
    let mut out: Vec<Span> = Vec::new();
    let ghost want: Seq<Piece> = pieces_from(s@, base, *theme, 0);
    let mut i: usize = 0;
    assert(style::pieces(out@) + want =~= want);
    while i < v.len()
        invariant
            i <= v@.len(),
            v@ == s@,
            want == style::pieces(out@) + pieces_from(s@, base, *theme, i as int),
        decreases v@.len() - i,
    {
        broadcast use {style::group_lines, style::group_piece_lists};

        let (end, look): (usize, Style) = token_at(&v, i, base, theme);
        out.push(style::styled(text::text_range(&v, i, end), look));
        i = end;
    }
    spans::spans_or_empty(out, base)
}

proof fn tokens_keep_text(s: Seq<char>, base: Style, theme: Theme, i: int)
    requires
        0 <= i <= s.len(),
    ensures
        style::plain_text(pieces_from(s, base, theme, i)) == s.subrange(i, s.len() as int),
    decreases s.len() - i,
{
    if i < s.len() {
        token_goes_on(s, i, base, theme);
        let (end, look) = token(s, i, base, theme);
        tokens_keep_text(s, base, theme, end);
        let first: Piece = style::piece(s.subrange(i, end), look);
        style::one_piece_text(first);
        style::plain_text_add(seq![first], pieces_from(s, base, theme, end));
        assert(s.subrange(i, end) + s.subrange(end, s.len() as int) =~= s.subrange(
            i,
            s.len() as int,
        ));
    }
}

/// Colouring a formula leaves its text as it is.
pub proof fn math_keeps_text(s: Seq<char>, base: Style, theme: Theme)
    ensures
        style::plain_text(math_pieces(s, base, theme)) == s,
{
    tokens_keep_text(s, base, theme, 0);
    assert(s.subrange(0, s.len() as int) =~= s);
    if pieces_from(s, base, theme, 0).len() == 0 {
        style::one_piece_text(style::piece(Seq::empty(), base));
        assert(s =~= Seq::<char>::empty());
    }
}

} // verus!
