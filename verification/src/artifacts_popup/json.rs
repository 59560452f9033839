//! JSON in colour.

use vstd::prelude::*;

use crate::artifacts_popup::spans;
use crate::style;
use crate::style::Piece;
use crate::style::Span;
use crate::style::Style;
use crate::style::Theme;
use crate::text;

verus! {

/// Where the string ends that is open at `i`.
pub open spec fn string_end(s: Seq<char>, i: int, escaped: bool) -> Option<int>
    decreases s.len() - i,
{
    if i < 0 || i >= s.len() {
        None
    } else if escaped {
        string_end(s, i + 1, false)
    } else if s[i] == '\\' {
        string_end(s, i + 1, true)
    } else if s[i] == '"' {
        Some(i + 1)
    } else {
        string_end(s, i + 1, false)
    }
}

fn find_string_end(v: &Vec<char>, from: usize) -> (r: Option<usize>)
    requires
        from <= v@.len(),
    ensures
        match r {
            Some(k) => string_end(v@, from as int, false) == Some(k as int) && from < k
                <= v@.len(),
            None => string_end(v@, from as int, false) is None,
        },
{
    let mut i: usize = from;
    let mut escaped: bool = false;
    while i < v.len()
        invariant
            from <= i <= v@.len(),
            string_end(v@, from as int, false) == string_end(v@, i as int, escaped),
        decreases v@.len() - i,
    {
        if escaped {
            escaped = false;
        } else if v[i] == '\\' {
            escaped = true;
        } else if v[i] == '"' {
            return Some(i + 1);
        }
        i += 1;
    }
    None
}

/// Whether a colon is what follows at `i`.
pub open spec fn colon_follows(s: Seq<char>, i: int) -> bool
    decreases s.len() - i,
{
    if i < 0 || i >= s.len() {
        false
    } else if text::white(s[i]) {
        colon_follows(s, i + 1)
    } else {
        s[i] == ':'
    }
}

fn is_colon_next(v: &Vec<char>, from: usize) -> (r: bool)
    ensures
        r == colon_follows(v@, from as int),
{
    let mut i: usize = from;
    while i < v.len() && text::is_white(v[i])
        invariant
            from <= i,
            colon_follows(v@, from as int) == colon_follows(v@, i as int),
        decreases v@.len() - i,
    {
        i += 1;
    }
    i < v.len() && v[i] == ':'
}

/// Whether a character is punctuation.
pub open spec fn punctuation(c: char) -> bool {
    c == '{' || c == '}' || c == '[' || c == ']' || c == ':' || c == ','
}

/// Whether a character is part of a number.
pub open spec fn in_number(c: char) -> bool {
    text::digit(c) || c == '.' || c == 'e' || c == 'E' || c == '+' || c == '-'
}

/// Where the number ends that goes on at `i`.
pub open spec fn number_end(s: Seq<char>, i: int) -> int
    decreases s.len() - i,
{
    if 0 <= i < s.len() && in_number(s[i]) {
        number_end(s, i + 1)
    } else {
        i
    }
}

/// Whether `p` stands at `i`.
pub open spec fn stands(s: Seq<char>, i: int, p: Seq<char>) -> bool {
    0 <= i && i + p.len() <= s.len() && s.subrange(i, i + p.len()) == p
}

fn is_standing(v: &Vec<char>, i: usize, p: &str) -> (r: bool)
    requires
        i <= v@.len(),
    ensures
        r == stands(v@, i as int, p@),
{
    let w: Vec<char> = text::chars_of(p);
    let total: usize = v.len();
    if total - i < w.len() {
        return false;
    }
    let mut k: usize = 0;
    while k < w.len()
        invariant
            k <= w@.len(),
            i + w@.len() <= total == v@.len(),
            w@ == p@,
            forall|j: int| 0 <= j < k ==> v@[i + j] == #[trigger] w@[j],
        decreases w@.len() - k,
    {
        if v[i + k] != w[k] {
            assert(v@.subrange(i as int, i + p@.len())[k as int] != p@[k as int]);
            return false;
        }
        k += 1;
    }
    assert(v@.subrange(i as int, i + p@.len()) =~= p@);
    true
}

/// Whether one of the words of the language stands at `i`.
pub open spec fn word_stands(s: Seq<char>, i: int) -> bool {
    stands(s, i, "true"@) || stands(s, i, "false"@) || stands(s, i, "null"@)
}

/// Whether something else starts at `i`.
pub open spec fn other_ends(s: Seq<char>, i: int) -> bool {
    s[i] == '"' || punctuation(s[i]) || s[i] == '-' || text::digit(s[i]) || word_stands(s, i)
}

/// Where what has no colour of its own ends that goes on at `i`.
pub open spec fn other_end(s: Seq<char>, i: int) -> int
    decreases s.len() - i,
{
    if 0 <= i < s.len() && !other_ends(s, i) {
        other_end(s, i + 1)
    } else {
        i
    }
}

/// The token at `i`: its end and its style.
pub open spec fn token(s: Seq<char>, i: int, base: Style, theme: Theme) -> (int, Style) {
    let c: char = s[i];
    if c == '"' {
        match string_end(s, i + 1, false) {
            Some(end) => (
                end,
                if colon_follows(s, end) {
                    base.fg(theme.hl.property).bold()
                } else {
                    base.fg(theme.hl.string)
                },
            ),
            None => (i + 1, base),
        }
    } else if punctuation(c) {
        (i + 1, base.fg(theme.hl.punctuation))
    } else if c == '-' || text::digit(c) {
        (number_end(s, i + 1), base.fg(theme.hl.number).bold())
    } else if stands(s, i, "true"@) {
        (i + 4, base.fg(theme.hl.boolean).bold())
    } else if stands(s, i, "false"@) {
        (i + 5, base.fg(theme.hl.boolean).bold())
    } else if stands(s, i, "null"@) {
        (i + 4, base.fg(theme.hl.keyword))
    } else {
        (other_end(s, i + 1), base)
    }
}

/// Every token has a character and ends in the text.
pub proof fn token_goes_on(s: Seq<char>, i: int, base: Style, theme: Theme)
    requires
        0 <= i < s.len(),
    ensures
        i < token(s, i, base, theme).0 <= s.len(),
{
    reveal_strlit("true");
    reveal_strlit("false");
    reveal_strlit("null");
    string_goes_on(s, i + 1, false);
    number_goes_on(s, i + 1);
    other_goes_on(s, i + 1);
}

proof fn string_goes_on(s: Seq<char>, i: int, escaped: bool)
    requires
        0 <= i <= s.len(),
    ensures
        string_end(s, i, escaped) matches Some(k) ==> i < k <= s.len(),
    decreases s.len() - i,
{
    if i < s.len() {
        string_goes_on(s, i + 1, false);
        string_goes_on(s, i + 1, true);
    }
}

proof fn number_goes_on(s: Seq<char>, i: int)
    requires
        0 <= i <= s.len(),
    ensures
        i <= number_end(s, i) <= s.len(),
    decreases s.len() - i,
{
    if i < s.len() && in_number(s[i]) {
        number_goes_on(s, i + 1);
    }
}

proof fn other_goes_on(s: Seq<char>, i: int)
    requires
        0 <= i <= s.len(),
    ensures
        i <= other_end(s, i) <= s.len(),
    decreases s.len() - i,
{
    if i < s.len() && !other_ends(s, i) {
        other_goes_on(s, i + 1);
    }
}

/// The tokens from `i` on.
pub open spec fn pieces_from(s: Seq<char>, base: Style, theme: Theme, i: int) -> Seq<Piece>
    decreases s.len() - i,
{
    if i < 0 || i >= s.len() {
        Seq::empty()
    } else {
        proof {
            token_goes_on(s, i, base, theme);
        }
        let (end, look) = token(s, i, base, theme);
        seq![style::piece(s.subrange(i, end), look)] + pieces_from(s, base, theme, end)
    }
}

/// JSON in colour.
pub open spec fn json_pieces(s: Seq<char>, base: Style, theme: Theme) -> Seq<Piece> {
    spans::or_empty(pieces_from(s, base, theme, 0), base)
}

fn find_number_end(v: &Vec<char>, from: usize) -> (r: usize)
    requires
        from <= v@.len(),
    ensures
        r == number_end(v@, from as int),
{
    let mut i: usize = from;
    while i < v.len() && (text::is_digit(v[i]) || v[i] == '.' || v[i] == 'e' || v[i] == 'E' || v[i]
        == '+' || v[i] == '-')
        invariant
            from <= i <= v@.len(),
            number_end(v@, from as int) == number_end(v@, i as int),
        decreases v@.len() - i,
    {
        i += 1;
    }
    i
}

fn is_other_end(v: &Vec<char>, i: usize) -> (r: bool)
    requires
        i < v@.len(),
    ensures
        r == other_ends(v@, i as int),
{
    let c: char = v[i];
    c == '"' || c == '{' || c == '}' || c == '[' || c == ']' || c == ':' || c == ',' || c == '-'
        || text::is_digit(c) || is_standing(v, i, "true") || is_standing(v, i, "false")
        || is_standing(v, i, "null")
}

fn find_other_end(v: &Vec<char>, from: usize) -> (r: usize)
    requires
        from <= v@.len(),
    ensures
        r == other_end(v@, from as int),
{
    let mut i: usize = from;
    while i < v.len() && !is_other_end(v, i)
        invariant
            from <= i <= v@.len(),
            other_end(v@, from as int) == other_end(v@, i as int),
        decreases v@.len() - i,
    {
        i += 1;
    }
    i
}

fn token_at(v: &Vec<char>, i: usize, base: Style, theme: &Theme) -> (r: (usize, Style))
    requires
        i < v@.len(),
    ensures
        (r.0 as int, r.1) == token(v@, i as int, base, *theme),
        i < r.0 <= v@.len(),
{
    proof {
        token_goes_on(v@, i as int, base, *theme);
        reveal_strlit("true");
        reveal_strlit("false");
        reveal_strlit("null");
    }
    let total: usize = v.len();
    assert(i < total);
    let c: char = v[i];
    if c == '"' {
        match find_string_end(v, i + 1) {
            Some(end) => (
                end,
                if is_colon_next(v, end) {
                    base.fg(theme.hl.property).bold()
                } else {
                    base.fg(theme.hl.string)
                },
            ),
            None => (i + 1, base),
        }
    } else if c == '{' || c == '}' || c == '[' || c == ']' || c == ':' || c == ',' {
        (i + 1, base.fg(theme.hl.punctuation))
    } else if c == '-' || text::is_digit(c) {
        (find_number_end(v, i + 1), base.fg(theme.hl.number).bold())
    } else if is_standing(v, i, "true") {
        (i + 4, base.fg(theme.hl.boolean).bold())
    } else if is_standing(v, i, "false") {
        (i + 5, base.fg(theme.hl.boolean).bold())
    } else if is_standing(v, i, "null") {
        (i + 4, base.fg(theme.hl.keyword))
    } else {
        (find_other_end(v, i + 1), base)
    }
}

pub fn styled_json_spans(s: &str, base: Style, theme: &Theme) -> (r: Vec<Span>)
    ensures
        style::pieces(r@) == json_pieces(s@, base, *theme),
{
    broadcast use {style::group_lines, style::group_piece_lists};

    let v: Vec<char> = text::chars_of(s);
    let mut out: Vec<Span> = Vec::new();
    let ghost want: Seq<Piece> = pieces_from(s@, base, *theme, 0);
    let mut i: usize = 0;
    assert(style::pieces(out@) + want =~= want);
    while i < v.len()
        invariant
            i <= v@.len(),
            v@ == s@,
            want == style::pieces(out@) + pieces_from(s@, base, *theme, i as int),
        decreases v@.len() - i,
    {
        broadcast use {style::group_lines, style::group_piece_lists};

        let (end, look): (usize, Style) = token_at(&v, i, base, theme);
        out.push(style::styled(text::text_range(&v, i, end), look));
        i = end;
    }
    spans::spans_or_empty(out, base)
}

proof fn tokens_keep_text(s: Seq<char>, base: Style, theme: Theme, i: int)
    requires
        0 <= i <= s.len(),
    ensures
        style::plain_text(pieces_from(s, base, theme, i)) == s.subrange(i, s.len() as int),
    decreases s.len() - i,
{
    if i < s.len() {
        token_goes_on(s, i, base, theme);
        let (end, look) = token(s, i, base, theme);
        tokens_keep_text(s, base, theme, end);
        let first: Piece = style::piece(s.subrange(i, end), look);
        style::one_piece_text(first);
        style::plain_text_add(seq![first], pieces_from(s, base, theme, end));
        assert(s.subrange(i, end) + s.subrange(end, s.len() as int) =~= s.subrange(
            i,
            s.len() as int,
        ));
    }
}

/// Colouring JSON leaves its text as it is.
pub proof fn json_keeps_text(s: Seq<char>, base: Style, theme: Theme)
    ensures
        style::plain_text(json_pieces(s, base, theme)) == s,
{
    tokens_keep_text(s, base, theme, 0);
    assert(s.subrange(0, s.len() as int) =~= s);
    if pieces_from(s, base, theme, 0).len() == 0 {
        style::one_piece_text(style::piece(Seq::empty(), base));
        assert(s =~= Seq::<char>::empty());
    }
}

} // verus!
