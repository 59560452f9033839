//! Text as sequences of characters: building, comparing, trimming, searching and splitting.

use vstd::prelude::*;

verus! {

/// Whether a character is white: whether it has the property `White_Space` of Unicode.
pub open spec fn white(c: char) -> bool {
    ||| '\u{9}' <= c <= '\u{d}'
    ||| c == ' '
    ||| c == '\u{85}'
    ||| c == '\u{a0}'
    ||| c == '\u{1680}'
    ||| '\u{2000}' <= c <= '\u{200a}'
    ||| c == '\u{2028}'
    ||| c == '\u{2029}'
    ||| c == '\u{202f}'
    ||| c == '\u{205f}'
    ||| c == '\u{3000}'
}

/// Calls `char::is_whitespace`, which tells whether a character has the property `White_Space` of
/// Unicode. Claims that it holds of the characters that have it and of no others.
#[verifier::external_body]
pub(crate) fn is_white(c: char) -> (r: bool)
    ensures
        r == white(c),
{
    c.is_whitespace()
}

pub open spec fn digit(c: char) -> bool {
    '0' <= c <= '9'
}

pub open spec fn lower(c: char) -> bool {
    'a' <= c <= 'z'
}

pub open spec fn upper(c: char) -> bool {
    'A' <= c <= 'Z'
}

pub open spec fn alpha(c: char) -> bool {
    lower(c) || upper(c)
}

pub open spec fn alnum(c: char) -> bool {
    alpha(c) || digit(c)
}

pub fn is_digit(c: char) -> (r: bool)
    ensures
        r == digit(c),
{
    '0' <= c && c <= '9'
}

pub fn is_alpha(c: char) -> (r: bool)
    ensures
        r == alpha(c),
{
    ('a' <= c && c <= 'z') || ('A' <= c && c <= 'Z')
}

pub fn is_alnum(c: char) -> (r: bool)
    ensures
        r == alnum(c),
{
    is_alpha(c) || is_digit(c)
}

/// The lower-case letter of an ASCII capital; any other character unchanged.
pub open spec fn lowered(c: char) -> char {
    if upper(c) {
        ((c as u8) + 32) as char
    } else {
        c
    }
}

/// The capital of an ASCII lower-case letter; any other character unchanged.
pub open spec fn raised(c: char) -> char {
    if lower(c) {
        ((c as u8) - 32) as char
    } else {
        c
    }
}

pub fn ascii_lower(c: char) -> (r: char)
    ensures
        r == lowered(c),
{
    if 'A' <= c && c <= 'Z' {
        ((c as u8) + 32) as char
    } else {
        c
    }
}

pub fn ascii_upper(c: char) -> (r: char)
    ensures
        r == raised(c),
{
    if 'a' <= c && c <= 'z' {
        ((c as u8) - 32) as char
    } else {
        c
    }
}

pub open spec fn lowered_text(s: Seq<char>) -> Seq<char> {
    Seq::new(s.len(), |i: int| lowered(s[i]))
}

pub open spec fn raised_text(s: Seq<char>) -> Seq<char> {
    Seq::new(s.len(), |i: int| raised(s[i]))
}

pub fn lower_of(s: &str) -> (r: String)
    ensures
        r@ == lowered_text(s@),
{
    let v: Vec<char> = chars_of(s);
    let mut out: String = String::new();
    let mut i: usize = 0;
    while i < v.len()
        invariant
            i <= v@.len(),
            v@ == s@,
            out@ == lowered_text(s@.take(i as int)),
        decreases v@.len() - i,
    {
        out.push(ascii_lower(v[i]));
        i += 1;
        assert(out@ =~= lowered_text(s@.take(i as int)));
    }
    assert(s@.take(v@.len() as int) =~= s@);
    out
}

pub fn upper_of(s: &str) -> (r: String)
    ensures
        r@ == raised_text(s@),
{
    let v: Vec<char> = chars_of(s);
    let mut out: String = String::new();
    let mut i: usize = 0;
    while i < v.len()
        invariant
            i <= v@.len(),
            v@ == s@,
            out@ == raised_text(s@.take(i as int)),
        decreases v@.len() - i,
    {
        out.push(ascii_upper(v[i]));
        i += 1;
        assert(out@ =~= raised_text(s@.take(i as int)));
    }
    assert(s@.take(v@.len() as int) =~= s@);
    out
}

/// Whether two texts are the same but for the case of ASCII letters.
pub open spec fn same_letters(a: Seq<char>, b: Seq<char>) -> bool {
    lowered_text(a) == lowered_text(b)
}

pub fn eq_ignore_case(a: &str, b: &str) -> (r: bool)
    ensures
        r == same_letters(a@, b@),
{
    str_eq(lower_of(a).as_str(), lower_of(b).as_str())
}


/// `String::push` appends one character.
pub assume_specification[ String::push ](s: &mut String, c: char)
    ensures
        final(s)@ == old(s)@.push(c),
;

/// `String::push_str` appends a whole string slice.
pub assume_specification[ String::push_str ](s: &mut String, t: &str)
    ensures
        final(s)@ == old(s)@ + t@,
;

/// The characters of `s`.
pub fn chars_of(s: &str) -> (r: Vec<char>)
    ensures
        r@ == s@,
{
    let mut out: Vec<char> = Vec::new();
    for c in it: s.chars()
        invariant
            it.seq() == s@,
            out@ == s@.take(it.index() as int),
    {
        out.push(c);
    }
    out
}

/// The characters `from .. to` of `v` as a string.
pub fn text_range(v: &Vec<char>, from: usize, to: usize) -> (r: String)
    requires
        from <= to <= v@.len(),
    ensures
        r@ == v@.subrange(from as int, to as int),
{
    let mut out: String = String::new();
    let mut i: usize = from;
    while i < to
        invariant
            from <= i <= to <= v@.len(),
            out@ == v@.subrange(from as int, i as int),
        decreases to - i,
    {
        out.push(v[i]);
        proof {
            assert(v@.subrange(from as int, i as int).push(v@[i as int]) =~= v@.subrange(
                from as int,
                i + 1,
            ));
        }
        i += 1;
    }
    out
}

pub fn text_of(v: &Vec<char>) -> (r: String)
    ensures
        r@ == v@,
{
    let r: String = text_range(v, 0, v.len());
    assert(v@.subrange(0, v@.len() as int) =~= v@);
    r
}

pub fn copy(s: &str) -> (r: String)
    ensures
        r@ == s@,
{
    s.to_owned()
}

pub fn str_eq(a: &str, b: &str) -> (r: bool)
    ensures
        r == (a@ == b@),
{
    let x: String = a.to_owned();
    let y: String = b.to_owned();
    x == y
}

pub fn opt_str_eq(a: &Option<String>, b: &str) -> (r: bool)
    ensures
        r == (opt_text(*a) == Some(b@)),
{
    match a {
        Some(x) => str_eq(x.as_str(), b),
        None => false,
    }
}

/// The text of an optional string.
pub open spec fn opt_text(a: Option<String>) -> Option<Seq<char>> {
    match a {
        Some(x) => Some(x@),
        None => None,
    }
}

/// The text of an optional borrowed string.
pub open spec fn opt_str(a: Option<&str>) -> Option<Seq<char>> {
    match a {
        Some(x) => Some(x@),
        None => None,
    }
}

/// The texts of a sequence of strings.
pub open spec fn texts(v: Seq<String>) -> Seq<Seq<char>> {
    Seq::new(v.len(), |i: int| v[i]@)
}

pub broadcast proof fn texts_push(v: Seq<String>, s: String)
    ensures
        #[trigger] texts(v.push(s)) == texts(v).push(s@),
{
    assert(texts(v.push(s)) =~= texts(v).push(s@));
}

pub broadcast proof fn texts_add(a: Seq<String>, b: Seq<String>)
    ensures
        #[trigger] texts(a + b) == texts(a) + texts(b),
{
    assert(texts(a + b) =~= texts(a) + texts(b));
}

pub broadcast proof fn texts_empty()
    ensures
        #[trigger] texts(Seq::<String>::empty()) == Seq::<Seq<char>>::empty(),
{
    assert(texts(Seq::<String>::empty()) =~= Seq::<Seq<char>>::empty());
}

pub broadcast group group_texts {
    texts_push,
    texts_add,
    texts_empty,
}

pub fn cat2(a: &str, b: &str) -> (r: String)
    ensures
        r@ == a@ + b@,
{
    let mut r: String = a.to_owned();
    r.push_str(b);
    r
}

pub fn cat3(a: &str, b: &str, c: &str) -> (r: String)
    ensures
        r@ == a@ + b@ + c@,
{
    let mut r: String = a.to_owned();
    r.push_str(b);
    r.push_str(c);
    r
}

pub fn cat4(a: &str, b: &str, c: &str, d: &str) -> (r: String)
    ensures
        r@ == a@ + b@ + c@ + d@,
{
    let mut r: String = cat3(a, b, c);
    r.push_str(d);
    r
}

pub fn cat5(a: &str, b: &str, c: &str, d: &str, e: &str) -> (r: String)
    ensures
        r@ == a@ + b@ + c@ + d@ + e@,
{
    let mut r: String = cat4(a, b, c, d);
    r.push_str(e);
    r
}

pub fn cat6(a: &str, b: &str, c: &str, d: &str, e: &str, f: &str) -> (r: String)
    ensures
        r@ == a@ + b@ + c@ + d@ + e@ + f@,
{
    let mut r: String = cat5(a, b, c, d, e);
    r.push_str(f);
    r
}

pub fn cat7(a: &str, b: &str, c: &str, d: &str, e: &str, f: &str, g: &str) -> (r: String)
    ensures
        r@ == a@ + b@ + c@ + d@ + e@ + f@ + g@,
{
    let mut r: String = cat6(a, b, c, d, e, f);
    r.push_str(g);
    r
}

/// `n` times the character `c`.
pub open spec fn fill(c: char, n: nat) -> Seq<char> {
    Seq::new(n, |i: int| c)
}

pub fn filled(c: char, n: usize) -> (r: String)
    ensures
        r@ == fill(c, n as nat),
{
    let mut out: String = String::new();
    let mut i: usize = 0;
    while i < n
        invariant
            i <= n,
            out@ == fill(c, i as nat),
        decreases n - i,
    {
        out.push(c);
        proof {
            assert(fill(c, i as nat).push(c) =~= fill(c, (i + 1) as nat));
        }
        i += 1;
    }
    out
}

pub open spec fn min_int(a: int, b: int) -> int {
    if a <= b {
        a
    } else {
        b
    }
}

pub open spec fn max_int(a: int, b: int) -> int {
    if a >= b {
        a
    } else {
        b
    }
}

/// `a - b`, but never below zero.
pub open spec fn monus(a: int, b: int) -> int {
    if a >= b {
        a - b
    } else {
        0
    }
}

pub fn min_of(a: usize, b: usize) -> (r: usize)
    ensures
        r == min_int(a as int, b as int),
{
    if a <= b {
        a
    } else {
        b
    }
}

pub fn max_of(a: usize, b: usize) -> (r: usize)
    ensures
        r == max_int(a as int, b as int),
{
    if a >= b {
        a
    } else {
        b
    }
}

/// `a - b`, but never below zero.
pub fn minus(a: usize, b: usize) -> (r: usize)
    ensures
        r == monus(a as int, b as int),
{
    if a >= b {
        a - b
    } else {
        0
    }
}

/// The first `n` characters of `s`, or all of it.
pub open spec fn head(s: Seq<char>, n: int) -> Seq<char> {
    if n <= 0 {
        Seq::empty()
    } else if n <= s.len() {
        s.subrange(0, n)
    } else {
        s
    }
}

/// What follows the first `n` characters of `s`.
pub open spec fn tail(s: Seq<char>, n: int) -> Seq<char> {
    if n <= 0 {
        s
    } else if n <= s.len() {
        s.subrange(n, s.len() as int)
    } else {
        Seq::empty()
    }
}

pub fn head_of(s: &str, n: usize) -> (r: String)
    ensures
        r@ == head(s@, n as int),
{
    let v: Vec<char> = chars_of(s);
    let r: String = text_range(&v, 0, min_of(n, v.len()));
    assert(r@ =~= head(s@, n as int));
    r
}

pub fn tail_of(s: &str, n: usize) -> (r: String)
    ensures
        r@ == tail(s@, n as int),
{
    let v: Vec<char> = chars_of(s);
    let r: String = text_range(&v, min_of(n, v.len()), v.len());
    assert(r@ =~= tail(s@, n as int));
    r
}

/// The number of characters of `s`.
pub fn length(s: &str) -> (r: usize)
    ensures
        r == s@.len(),
{
    s.unicode_len()
}

/// A head and its tail make the whole again.
pub proof fn head_tail(s: Seq<char>, n: int)
    ensures
        head(s, n) + tail(s, n) == s,
{
    assert(head(s, n) + tail(s, n) =~= s);
}


pub open spec fn digit_char(d: nat) -> char
    recommends
        d < 10,
{
    if d == 0 {
        '0'
    } else if d == 1 {
        '1'
    } else if d == 2 {
        '2'
    } else if d == 3 {
        '3'
    } else if d == 4 {
        '4'
    } else if d == 5 {
        '5'
    } else if d == 6 {
        '6'
    } else if d == 7 {
        '7'
    } else if d == 8 {
        '8'
    } else {
        '9'
    }
}

/// `n` in decimal notation, without leading zeros.
pub open spec fn decimal(n: nat) -> Seq<char>
    decreases n,
{
    if n < 10 {
        seq![digit_char(n)]
    } else {
        decimal(n / 10).push(digit_char(n % 10))
    }
}

fn digit_of(d: u128) -> (r: char)
    requires
        d < 10,
    ensures
        r == digit_char(d as nat),
{
    match d {
        0 => '0',
        1 => '1',
        2 => '2',
        3 => '3',
        4 => '4',
        5 => '5',
        6 => '6',
        7 => '7',
        8 => '8',
        _ => '9',
    }
}

pub fn decimal_u128(n: u128) -> (r: String)
    ensures
        r@ == decimal(n as nat),
    decreases n,
{
    if n < 10 {
        let mut out: String = String::new();
        out.push(digit_of(n));
        assert(out@ =~= seq![digit_char(n as nat)]);
        out
    } else {
        let mut out: String = decimal_u128(n / 10);
        out.push(digit_of(n % 10));
        out
    }
}

pub fn decimal_u64(n: u64) -> (r: String)
    ensures
        r@ == decimal(n as nat),
{
    decimal_u128(n as u128)
}

pub fn decimal_usize(n: usize) -> (r: String)
    ensures
        r@ == decimal(n as nat),
{
    decimal_u128(n as u128)
}

/// `n` in decimal notation, with a leading zero below ten.
pub open spec fn two_digits(n: nat) -> Seq<char> {
    if n < 10 {
        seq!['0'] + decimal(n)
    } else {
        decimal(n)
    }
}

pub fn two_digits_u64(n: u64) -> (r: String)
    ensures
        r@ == two_digits(n as nat),
{
    if n < 10 {
        let mut out: String = String::new();
        out.push('0');
        assert(out@ =~= seq!['0']);
        out.push_str(decimal_u64(n).as_str());
        out
    } else {
        decimal_u64(n)
    }
}

/// Ten times ten, so often.
pub open spec fn tens(k: nat) -> nat
    decreases k,
{
    if k == 0 {
        1
    } else {
        10 * tens((k - 1) as nat)
    }
}

/// A number below a power of ten has no more digits than the power has zeros.
pub proof fn decimals_are_short(n: nat, k: nat)
    requires
        k >= 1,
        n < tens(k),
    ensures
        decimal(n).len() <= k,
    decreases k,
{
    if n >= 10 {
        reveal_with_fuel(tens, 2);
        decimals_are_short(n / 10, (k - 1) as nat);
    }
}

/// A machine number has at most twenty digits.
pub proof fn machine_numbers_are_short(n: nat)
    requires
        n <= usize::MAX,
    ensures
        decimal(n).len() <= 20,
{
    reveal_with_fuel(tens, 21);
    assert(tens(20) == 100_000_000_000_000_000_000);
    assert(n <= 0xffff_ffff_ffff_ffff);
    decimals_are_short(n, 20);
}

pub proof fn decimal_len_positive(n: nat)
    ensures
        decimal(n).len() >= 1,
    decreases n,
{
    if n >= 10 {
        decimal_len_positive(n / 10);
    }
}



/// `s` without its leading white characters.
pub open spec fn trimmed_start(s: Seq<char>) -> Seq<char>
    decreases s.len(),
{
    if s.len() > 0 && white(s[0]) {
        trimmed_start(s.subrange(1, s.len() as int))
    } else {
        s
    }
}

/// `s` without its trailing white characters.
pub open spec fn trimmed_end(s: Seq<char>) -> Seq<char>
    decreases s.len(),
{
    if s.len() > 0 && white(s[s.len() - 1]) {
        trimmed_end(s.subrange(0, s.len() - 1))
    } else {
        s
    }
}

/// `s` without its leading and trailing white characters.
pub open spec fn trimmed(s: Seq<char>) -> Seq<char> {
    trimmed_end(trimmed_start(s))
}

/// Where the characters of `v` from `from` on start without their leading white ones.
pub fn first_dark(v: &Vec<char>, from: usize) -> (i: usize)
    requires
        from <= v@.len(),
    ensures
        from <= i <= v@.len(),
        trimmed_start(v@.subrange(from as int, v@.len() as int)) == v@.subrange(
            i as int,
            v@.len() as int,
        ),
{
    let mut i: usize = from;
    while i < v.len() && is_white(v[i])
        invariant
            from <= i <= v@.len(),
            trimmed_start(v@.subrange(from as int, v@.len() as int)) == trimmed_start(
                v@.subrange(i as int, v@.len() as int),
            ),
        decreases v@.len() - i,
    {
        proof {
            let rest: Seq<char> = v@.subrange(i as int, v@.len() as int);
            assert(rest.subrange(1, rest.len() as int) =~= v@.subrange(i + 1, v@.len() as int));
        }
        i += 1;
    }
    i
}

/// Where the characters `from .. to` of `v` end without their trailing white ones.
pub fn last_dark(v: &Vec<char>, from: usize, to: usize) -> (j: usize)
    requires
        from <= to <= v@.len(),
    ensures
        from <= j <= to,
        trimmed_end(v@.subrange(from as int, to as int)) == v@.subrange(from as int, j as int),
{
    let mut j: usize = to;
    while j > from && is_white(v[j - 1])
        invariant
            from <= j <= to <= v@.len(),
            trimmed_end(v@.subrange(from as int, to as int)) == trimmed_end(
                v@.subrange(from as int, j as int),
            ),
        decreases j,
    {
        proof {
            let rest: Seq<char> = v@.subrange(from as int, j as int);
            assert(rest.subrange(0, rest.len() - 1) =~= v@.subrange(from as int, j - 1));
        }
        j -= 1;
    }
    j
}

pub fn trim_start(s: &str) -> (r: String)
    ensures
        r@ == trimmed_start(s@),
{
    let v: Vec<char> = chars_of(s);
    let i: usize = first_dark(&v, 0);
    assert(v@.subrange(0, v@.len() as int) =~= v@);
    text_range(&v, i, v.len())
}

pub fn trim_end(s: &str) -> (r: String)
    ensures
        r@ == trimmed_end(s@),
{
    let v: Vec<char> = chars_of(s);
    let j: usize = last_dark(&v, 0, v.len());
    assert(v@.subrange(0, v@.len() as int) =~= v@);
    text_range(&v, 0, j)
}

pub fn trim(s: &str) -> (r: String)
    ensures
        r@ == trimmed(s@),
{
    let v: Vec<char> = chars_of(s);
    let i: usize = first_dark(&v, 0);
    assert(v@.subrange(0, v@.len() as int) =~= v@);
    let j: usize = last_dark(&v, i, v.len());
    text_range(&v, i, j)
}

pub proof fn trimmed_start_not_longer(s: Seq<char>)
    ensures
        trimmed_start(s).len() <= s.len(),
    decreases s.len(),
{
    if s.len() > 0 && white(s[0]) {
        trimmed_start_not_longer(s.subrange(1, s.len() as int));
    }
}

/// The white characters that `s` starts with.
pub open spec fn lead(s: Seq<char>) -> Seq<char> {
    head(s, s.len() - trimmed_start(s).len())
}

pub fn lead_of(s: &str) -> (r: String)
    ensures
        r@ == lead(s@),
{
    let bare: String = trim_start(s);
    let total: usize = length(s);
    proof {
        trimmed_start_not_longer(s@);
    }
    head_of(s, total - length(bare.as_str()))
}

/// The white characters at the start and what follows them make the whole again.
pub proof fn lead_and_rest(s: Seq<char>)
    ensures
        lead(s) + trimmed_start(s) == s,
    decreases s.len(),
{
    trimmed_start_not_longer(s);
    if s.len() > 0 && white(s[0]) {
        let rest: Seq<char> = s.subrange(1, s.len() as int);
        lead_and_rest(rest);
        trimmed_start_not_longer(rest);
        assert(lead(s) =~= seq![s[0]] + lead(rest));
        assert(lead(s) + trimmed_start(s) =~= seq![s[0]] + (lead(rest) + trimmed_start(rest)));
        assert(seq![s[0]] + rest =~= s);
    } else {
        assert(lead(s) + trimmed_start(s) =~= s);
    }
}

/// A text without the white characters at its end is its head.
pub proof fn trimmed_end_is_head(s: Seq<char>)
    ensures
        trimmed_end(s) == head(s, trimmed_end(s).len() as int),
        trimmed_end(s).len() <= s.len(),
    decreases s.len(),
{
    if s.len() > 0 && white(s[s.len() - 1]) {
        let rest: Seq<char> = s.subrange(0, s.len() - 1);
        trimmed_end_is_head(rest);
        assert(head(rest, trimmed_end(s).len() as int) =~= head(s, trimmed_end(s).len() as int));
    } else {
        assert(head(s, s.len() as int) =~= s);
    }
}

/// `s` without the characters `c` that it starts with.
pub open spec fn without_leading(s: Seq<char>, c: char) -> Seq<char>
    decreases s.len(),
{
    if s.len() > 0 && s[0] == c {
        without_leading(s.subrange(1, s.len() as int), c)
    } else {
        s
    }
}

pub fn trim_leading(s: &str, c: char) -> (r: String)
    ensures
        r@ == without_leading(s@, c),
{
    let v: Vec<char> = chars_of(s);
    let n: usize = v.len();
    let mut i: usize = 0;
    assert(v@.subrange(0, n as int) =~= v@);
    while i < n && v[i] == c
        invariant
            i <= n,
            n == v@.len(),
            without_leading(v@, c) == without_leading(v@.subrange(i as int, n as int), c),
        decreases n - i,
    {
        proof {
            let rest: Seq<char> = v@.subrange(i as int, n as int);
            assert(rest.subrange(1, rest.len() as int) =~= v@.subrange(i + 1, n as int));
        }
        i += 1;
    }
    text_range(&v, i, n)
}

/// `s` without the characters `c` that it ends with.
pub open spec fn without_trailing(s: Seq<char>, c: char) -> Seq<char>
    decreases s.len(),
{
    if s.len() > 0 && s[s.len() - 1] == c {
        without_trailing(s.subrange(0, s.len() - 1), c)
    } else {
        s
    }
}

pub fn trim_trailing(s: &str, c: char) -> (r: String)
    ensures
        r@ == without_trailing(s@, c),
{
    let v: Vec<char> = chars_of(s);
    let mut j: usize = v.len();
    assert(v@.subrange(0, v@.len() as int) =~= v@);
    while j > 0 && v[j - 1] == c
        invariant
            j <= v@.len(),
            without_trailing(v@, c) == without_trailing(v@.subrange(0, j as int), c),
        decreases j,
    {
        assert(v@.subrange(0, j as int).subrange(0, j - 1) =~= v@.subrange(0, j - 1));
        j -= 1;
    }
    text_range(&v, 0, j)
}

/// Whether `s` is empty or white throughout.
pub fn is_blank(s: &str) -> (r: bool)
    ensures
        r == (trimmed(s@).len() == 0),
{
    let t: String = trim(s);
    t.as_str().unicode_len() == 0
}


pub open spec fn starts(s: Seq<char>, p: Seq<char>) -> bool {
    p.len() <= s.len() && s.subrange(0, p.len() as int) == p
}

pub open spec fn ends(s: Seq<char>, p: Seq<char>) -> bool {
    p.len() <= s.len() && s.subrange(s.len() - p.len(), s.len() as int) == p
}

pub fn starts_with(s: &str, p: &str) -> (r: bool)
    ensures
        r == starts(s@, p@),
{
    let n: usize = length(p);
    if length(s) < n {
        return false;
    }
    let h: String = head_of(s, n);
    assert(h@ =~= s@.subrange(0, p@.len() as int));
    str_eq(h.as_str(), p)
}

pub fn ends_with(s: &str, p: &str) -> (r: bool)
    ensures
        r == ends(s@, p@),
{
    let n: usize = length(p);
    let m: usize = length(s);
    if m < n {
        return false;
    }
    let h: String = tail_of(s, m - n);
    assert(h@ =~= s@.subrange(s@.len() - p@.len(), s@.len() as int));
    str_eq(h.as_str(), p)
}

/// `s` without the prefix `p`, where it starts with it.
pub open spec fn after_prefix(s: Seq<char>, p: Seq<char>) -> Option<Seq<char>> {
    if starts(s, p) {
        Some(tail(s, p.len() as int))
    } else {
        None
    }
}

pub fn strip_prefix(s: &str, p: &str) -> (r: Option<String>)
    ensures
        opt_text(r) == after_prefix(s@, p@),
{
    if starts_with(s, p) {
        Some(tail_of(s, length(p)))
    } else {
        None
    }
}

/// The first position at or after `i` at which `c` stands in `s`.
pub open spec fn char_at_or_after(s: Seq<char>, c: char, i: int) -> Option<int>
    decreases s.len() - i,
{
    if i < 0 || i >= s.len() {
        None
    } else if s[i] == c {
        Some(i)
    } else {
        char_at_or_after(s, c, i + 1)
    }
}

/// The first position of `c` in `s`.
pub open spec fn position(s: Seq<char>, c: char) -> Option<int> {
    char_at_or_after(s, c, 0)
}

pub proof fn char_at_or_after_is_first(s: Seq<char>, c: char, i: int)
    requires
        0 <= i,
    ensures
        match char_at_or_after(s, c, i) {
            Some(k) => i <= k < s.len() && s[k] == c && forall|j: int| i <= j < k ==> s[j] != c,
            None => forall|j: int| i <= j < s.len() ==> s[j] != c,
        },
    decreases s.len() - i,
{
    if i < s.len() && s[i] != c {
        char_at_or_after_is_first(s, c, i + 1);
    }
}

pub fn find_char_from(v: &Vec<char>, c: char, from: usize) -> (r: Option<usize>)
    ensures
        match r {
            Some(k) => char_at_or_after(v@, c, from as int) == Some(k as int) && from <= k < v@.len(),
            None => char_at_or_after(v@, c, from as int) is None,
        },
{
    let mut i: usize = from;
    while i < v.len()
        invariant
            from <= i,
            char_at_or_after(v@, c, from as int) == char_at_or_after(v@, c, i as int),
        decreases v@.len() - i,
    {
        if v[i] == c {
            return Some(i);
        }
        i += 1;
    }
    None
}

pub fn find_char(s: &str, c: char) -> (r: Option<usize>)
    ensures
        match r {
            Some(k) => position(s@, c) == Some(k as int) && k < s@.len() <= usize::MAX,
            None => position(s@, c) is None,
        },
{
    let v: Vec<char> = chars_of(s);
    let n: usize = v.len();
    find_char_from(&v, c, 0)
}

/// Whether `c` stands somewhere in `s`.
pub open spec fn has(s: Seq<char>, c: char) -> bool {
    position(s, c) is Some
}

pub fn has_char(s: &str, c: char) -> (r: bool)
    ensures
        r == has(s@, c),
{
    find_char(s, c).is_some()
}

/// The first position at or after `i` at which `p` stands in `s`.
pub open spec fn text_at_or_after(s: Seq<char>, p: Seq<char>, i: int) -> Option<int>
    decreases s.len() - i,
{
    if i < 0 || i + p.len() > s.len() {
        None
    } else if s.subrange(i, i + p.len()) == p {
        Some(i)
    } else if i >= s.len() {
        None
    } else {
        text_at_or_after(s, p, i + 1)
    }
}

/// The first position of `p` in `s`.
pub open spec fn find(s: Seq<char>, p: Seq<char>) -> Option<int> {
    text_at_or_after(s, p, 0)
}

fn matches_at(v: &Vec<char>, p: &Vec<char>, i: usize) -> (r: bool)
    requires
        i + p@.len() <= v@.len(),
    ensures
        r == (v@.subrange(i as int, i + p@.len()) == p@),
{
    let n: usize = v.len();
    let mut k: usize = 0;
    while k < p.len()
        invariant
            k <= p@.len(),
            n == v@.len(),
            i + p@.len() <= n,
            forall|j: int| 0 <= j < k ==> v@[i + j] == p@[j],
        decreases p@.len() - k,
    {
        if v[i + k] != p[k] {
            assert(v@.subrange(i as int, i + p@.len())[k as int] != p@[k as int]);
            return false;
        }
        k += 1;
    }
    assert(v@.subrange(i as int, i + p@.len()) =~= p@);
    true
}

pub fn find_text_from(v: &Vec<char>, p: &Vec<char>, from: usize) -> (r: Option<usize>)
    requires
        from <= v@.len(),
    ensures
        match r {
            Some(k) => text_at_or_after(v@, p@, from as int) == Some(k as int) && from <= k && k
                + p@.len() <= v@.len(),
            None => text_at_or_after(v@, p@, from as int) is None,
        },
{
    let mut i: usize = from;
    while i <= v.len() && p.len() <= v.len() - i
        invariant
            from <= i <= v@.len(),
            text_at_or_after(v@, p@, from as int) == text_at_or_after(v@, p@, i as int),
        decreases v@.len() - i,
    {
        if matches_at(v, p, i) {
            return Some(i);
        }
        if i >= v.len() {
            return None;
        }
        i += 1;
    }
    None
}

pub fn find_text(s: &str, p: &str) -> (r: Option<usize>)
    ensures
        match r {
            Some(k) => find(s@, p@) == Some(k as int) && k + p@.len() <= s@.len() <= usize::MAX,
            None => find(s@, p@) is None,
        },
{
    let v: Vec<char> = chars_of(s);
    let n: usize = v.len();
    let q: Vec<char> = chars_of(p);
    find_text_from(&v, &q, 0)
}

/// Whether `s` consists of nothing but `c`.
pub open spec fn only(s: Seq<char>, c: char) -> bool {
    forall|i: int| 0 <= i < s.len() ==> s[i] == c
}

pub fn is_only(s: &str, c: char) -> (r: bool)
    ensures
        r == only(s@, c),
{
    let v: Vec<char> = chars_of(s);
    let mut i: usize = 0;
    while i < v.len()
        invariant
            i <= v@.len(),
            v@ == s@,
            forall|j: int| 0 <= j < i ==> v@[j] == c,
        decreases v@.len() - i,
    {
        if v[i] != c {
            return false;
        }
        i += 1;
    }
    true
}

/// Whether `p` stands somewhere in `s`.
pub open spec fn includes(s: Seq<char>, p: Seq<char>) -> bool {
    find(s, p) is Some
}

pub fn contains(s: &str, p: &str) -> (r: bool)
    ensures
        r == includes(s@, p@),
{
    find_text(s, p).is_some()
}

/// The parts of `s` before and after the first `p`.
pub open spec fn around(s: Seq<char>, p: Seq<char>) -> Option<(Seq<char>, Seq<char>)> {
    match find(s, p) {
        Some(k) => Some((head(s, k), tail(s, k + p.len()))),
        None => None,
    }
}

proof fn text_stands_there(s: Seq<char>, p: Seq<char>, i: int)
    requires
        0 <= i,
    ensures
        text_at_or_after(s, p, i) matches Some(k) ==> i <= k && k + p.len() <= s.len()
            && s.subrange(k, k + p.len()) == p,
    decreases s.len() - i,
{
    if i + p.len() <= s.len() && s.subrange(i, i + p.len()) != p && i < s.len() {
        text_stands_there(s, p, i + 1);
    }
}

/// What stands around a text, with it in between, makes the whole again.
pub proof fn around_makes_whole(s: Seq<char>, p: Seq<char>)
    ensures
        around(s, p) matches Some(parts) ==> parts.0 + p + parts.1 == s,
{
    text_stands_there(s, p, 0);
    if let Some(k) = find(s, p) {
        assert(s.subrange(k, k + p.len()) == p);
        assert(head(s, k) + s.subrange(k, k + p.len()) + tail(s, k + p.len()) =~= s);
    }
}

pub fn split_once(s: &str, p: &str) -> (r: Option<(String, String)>)
    ensures
        match r {
            Some(ab) => around(s@, p@) == Some((ab.0@, ab.1@)),
            None => around(s@, p@) is None,
        },
{
    let n: usize = length(s);
    match find_text(s, p) {
        Some(k) => Some((head_of(s, k), tail_of(s, k + length(p)))),
        None => None,
    }
}

/// The last position before `n` at which `c` stands in `s`.
pub open spec fn last_before(s: Seq<char>, c: char, n: int) -> Option<int>
    decreases n,
{
    if n <= 0 || n > s.len() {
        None
    } else if s[n - 1] == c {
        Some(n - 1)
    } else {
        last_before(s, c, n - 1)
    }
}

pub fn rfind_char(s: &str, c: char) -> (r: Option<usize>)
    ensures
        match r {
            Some(k) => last_before(s@, c, s@.len() as int) == Some(k as int) && k < s@.len()
                <= usize::MAX,
            None => last_before(s@, c, s@.len() as int) is None,
        },
{
    let v: Vec<char> = chars_of(s);
    let mut n: usize = v.len();
    while n > 0
        invariant
            n <= v@.len() <= usize::MAX,
            v@ == s@,
            last_before(s@, c, s@.len() as int) == last_before(s@, c, n as int),
        decreases n,
    {
        if v[n - 1] == c {
            return Some(n - 1);
        }
        n -= 1;
    }
    None
}


/// The parts of `s` between the characters `c`.
pub open spec fn split_at_char(s: Seq<char>, c: char) -> Seq<Seq<char>>
    decreases s.len(),
{
    match position(s, c) {
        Some(k) => if 0 <= k < s.len() {
            seq![head(s, k)] + split_at_char(tail(s, k + 1), c)
        } else {
            seq![s]
        },
        None => seq![s],
    }
}

proof fn position_in_tail(s: Seq<char>, c: char, i: int, k: int)
    requires
        0 <= i <= k <= s.len(),
    ensures
        char_at_or_after(tail(s, i), c, k - i) == (match char_at_or_after(s, c, k) {
            Some(j) => Some(j - i),
            None => None::<int>,
        }),
    decreases s.len() - k,
{
    if k < s.len() {
        assert(tail(s, i)[k - i] == s[k]);
        if s[k] != c {
            position_in_tail(s, c, i, k + 1);
        }
    }
}

pub fn split_char(s: &str, c: char) -> (r: Vec<String>)
    ensures
        texts(r@) == split_at_char(s@, c),
{
    broadcast use group_texts;

    let v: Vec<char> = chars_of(s);
    let mut out: Vec<String> = Vec::new();
    let mut i: usize = 0;
    assert(texts(out@) + split_at_char(tail(s@, 0), c) =~= split_at_char(s@, c));
    let n: usize = v.len();
    loop
        invariant
            i <= v@.len(),
            n == v@.len(),
            v@ == s@,
            texts(out@) + split_at_char(tail(s@, i as int), c) == split_at_char(s@, c),
        decreases v@.len() - i,
    {
        let ghost rest: Seq<char> = tail(s@, i as int);
        proof {
            position_in_tail(s@, c, i as int, i as int);
            char_at_or_after_is_first(s@, c, i as int);
        }
        match find_char_from(&v, c, i) {
            Some(k) => {
                let piece: String = text_range(&v, i, k);
                proof {
                    assert(piece@ =~= head(rest, k - i));
                    assert(tail(rest, k - i + 1) =~= tail(s@, k + 1));
                    assert((texts(out@) + seq![piece@]) + split_at_char(tail(s@, k + 1), c)
                        =~= texts(out@) + (seq![piece@] + split_at_char(tail(s@, k + 1), c)));
                    assert(texts(out@).push(piece@) =~= texts(out@) + seq![piece@]);
                }
                out.push(piece);
                i = k + 1;
            },
            None => {
                let piece: String = text_range(&v, i, v.len());
                proof {
                    assert(piece@ =~= rest);
                    assert(texts(out@).push(piece@) =~= texts(out@) + seq![piece@]);
                }
                out.push(piece);
                return out;
            },
        }
    }
}

/// `s` without one trailing carriage return.
pub open spec fn without_cr(s: Seq<char>) -> Seq<char> {
    if s.len() > 0 && s[s.len() - 1] == '\r' {
        s.subrange(0, s.len() - 1)
    } else {
        s
    }
}

/// The lines of `s`: each ends at a line feed or at the end of `s`; a carriage return directly
/// before a line feed belongs to the line ending, and nothing follows a final line feed.
pub open spec fn lines_of(s: Seq<char>) -> Seq<Seq<char>>
    decreases s.len(),
{
    if s.len() == 0 {
        Seq::empty()
    } else {
        match position(s, '\n') {
            Some(k) => if 0 <= k < s.len() {
                seq![without_cr(head(s, k))] + lines_of(tail(s, k + 1))
            } else {
                seq![s]
            },
            None => seq![s],
        }
    }
}

pub fn lines(s: &str) -> (r: Vec<String>)
    ensures
        texts(r@) == lines_of(s@),
{
    broadcast use group_texts;

    let v: Vec<char> = chars_of(s);
    let mut out: Vec<String> = Vec::new();
    let mut i: usize = 0;
    assert(texts(out@) + lines_of(tail(s@, 0)) =~= lines_of(s@));
    while i < v.len()
        invariant
            i <= v@.len(),
            v@ == s@,
            texts(out@) + lines_of(tail(s@, i as int)) == lines_of(s@),
        decreases v@.len() - i,
    {
        let ghost rest: Seq<char> = tail(s@, i as int);
        proof {
            position_in_tail(s@, '\n', i as int, i as int);
            char_at_or_after_is_first(s@, '\n', i as int);
        }
        match find_char_from(&v, '\n', i) {
            Some(k) => {
                let end: usize = if k > i && v[k - 1] == '\r' {
                    k - 1
                } else {
                    k
                };
                let piece: String = text_range(&v, i, end);
                proof {
                    assert(piece@ =~= without_cr(head(rest, k - i)));
                    assert(tail(rest, k - i + 1) =~= tail(s@, k + 1));
                    assert((texts(out@) + seq![piece@]) + lines_of(tail(s@, k + 1)) =~= texts(out@)
                        + (seq![piece@] + lines_of(tail(s@, k + 1))));
                    assert(texts(out@).push(piece@) =~= texts(out@) + seq![piece@]);
                }
                out.push(piece);
                i = k + 1;
            },
            None => {
                let piece: String = text_range(&v, i, v.len());
                proof {
                    assert(piece@ =~= rest);
                    assert(texts(out@).push(piece@) =~= texts(out@) + seq![piece@]);
                }
                out.push(piece);
                return out;
            },
        }
    }
    assert(texts(out@) + lines_of(tail(s@, i as int)) =~= texts(out@));
    out
}

/// The parts one after another with `sep` between them.
pub open spec fn joined(parts: Seq<Seq<char>>, sep: Seq<char>) -> Seq<char>
    decreases parts.len(),
{
    if parts.len() == 0 {
        Seq::empty()
    } else if parts.len() == 1 {
        parts[0]
    } else {
        joined(parts.drop_last(), sep) + sep + parts.last()
    }
}

/// Parts are joined from the front as well.
pub proof fn joined_from_front(first: Seq<char>, more: Seq<Seq<char>>, sep: Seq<char>)
    requires
        more.len() > 0,
    ensures
        joined(seq![first] + more, sep) == first + sep + joined(more, sep),
    decreases more.len(),
{
    let all: Seq<Seq<char>> = seq![first] + more;
    assert(all.drop_last() =~= seq![first] + more.drop_last());
    assert(all.last() == more.last());
    if more.len() == 1 {
        assert(all.drop_last() =~= seq![first]);
        assert(joined(seq![first], sep) == first);
    } else {
        joined_from_front(first, more.drop_last(), sep);
        assert(first + sep + joined(more.drop_last(), sep) + sep + more.last() =~= first + sep + (
        joined(more.drop_last(), sep) + sep + more.last()));
    }
}

/// Parts that a text was split into make it again.
pub proof fn split_joins(s: Seq<char>, c: char)
    ensures
        split_at_char(s, c).len() > 0,
        joined(split_at_char(s, c), seq![c]) == s,
    decreases s.len(),
{
    char_at_or_after_is_first(s, c, 0);
    match position(s, c) {
        Some(k) => {
            let more: Seq<char> = tail(s, k + 1);
            split_joins(more, c);
            joined_from_front(head(s, k), split_at_char(more, c), seq![c]);
            assert(head(s, k) + seq![c] + more =~= s);
        },
        None => {},
    }
}

/// Parts that a text was split into make it again, however few they are.
pub proof fn few_parts_join(s: Seq<char>, c: char, n: nat)
    ensures
        0 < split_few(s, c, n).len() <= max_int(n as int, 1),
        joined(split_few(s, c, n), seq![c]) == s,
    decreases n,
{
    char_at_or_after_is_first(s, c, 0);
    if n > 1 {
        if let Some(k) = position(s, c) {
            let more: Seq<char> = tail(s, k + 1);
            few_parts_join(more, c, (n - 1) as nat);
            joined_from_front(head(s, k), split_few(more, c, (n - 1) as nat), seq![c]);
            assert(head(s, k) + seq![c] + more =~= s);
        }
    }
}

pub fn join(parts: &Vec<String>, sep: &str) -> (r: String)
    ensures
        r@ == joined(texts(parts@), sep@),
{
    let mut out: String = String::new();
    let mut i: usize = 0;
    assert(texts(parts@).take(0) =~= Seq::empty());
    while i < parts.len()
        invariant
            i <= parts@.len(),
            out@ == joined(texts(parts@).take(i as int), sep@),
        decreases parts@.len() - i,
    {
        let ghost next: Seq<Seq<char>> = texts(parts@).take(i + 1);
        assert(next.drop_last() =~= texts(parts@).take(i as int));
        if i > 0 {
            out.push_str(sep);
            out.push_str(parts[i].as_str());
        } else {
            out = copy(parts[i].as_str());
        }
        i += 1;
    }
    assert(texts(parts@).take(parts@.len() as int) =~= texts(parts@));
    out
}

/// The first `n` parts, trimmed, without those that are blank.
pub open spec fn trimmed_parts(parts: Seq<Seq<char>>, n: int) -> Seq<Seq<char>>
    decreases n,
{
    if n <= 0 {
        Seq::empty()
    } else if trimmed(parts[n - 1]).len() > 0 {
        trimmed_parts(parts, n - 1).push(trimmed(parts[n - 1]))
    } else {
        trimmed_parts(parts, n - 1)
    }
}

pub fn trim_parts(parts: &Vec<String>) -> (r: Vec<String>)
    ensures
        texts(r@) == trimmed_parts(texts(parts@), parts@.len() as int),
{
    broadcast use group_texts;

    let mut out: Vec<String> = Vec::new();
    let mut i: usize = 0;
    while i < parts.len()
        invariant
            i <= parts@.len(),
            texts(out@) == trimmed_parts(texts(parts@), i as int),
        decreases parts@.len() - i,
    {
        let part: String = trim(parts[i].as_str());
        assert(part@ == trimmed(texts(parts@)[i as int]));
        if length(part.as_str()) > 0 {
            out.push(part);
        }
        i += 1;
    }
    out
}

/// The lines of a text, one after another.
pub open spec fn run_together(lines: Seq<Seq<char>>) -> Seq<char>
    decreases lines.len(),
{
    if lines.len() == 0 {
        Seq::empty()
    } else {
        run_together(lines.drop_last()) + lines.last()
    }
}

/// The parts of `s` between the first `c`s, `n` parts at most.
pub open spec fn split_few(s: Seq<char>, c: char, n: nat) -> Seq<Seq<char>>
    decreases n,
{
    if n <= 1 {
        seq![s]
    } else {
        match position(s, c) {
            Some(k) => seq![head(s, k)] + split_few(tail(s, k + 1), c, (n - 1) as nat),
            None => seq![s],
        }
    }
}

pub fn splitn(s: &str, c: char, n: usize) -> (r: Vec<String>)
    ensures
        texts(r@) == split_few(s@, c, n as nat),
    decreases n,
{
    if n > 1 {
        if let Some(k) = find_char(s, c) {
            let first: String = head_of(s, k);
            let rest: String = tail_of(s, k + 1);
            let mut more: Vec<String> = splitn(rest.as_str(), c, n - 1);
            let ghost behind: Seq<Seq<char>> = texts(more@);
            more.insert(0, first);
            assert(texts(more@) =~= seq![first@] + behind);
            return more;
        }
    }
    let only: Vec<String> = vec![copy(s)];
    assert(texts(only@) =~= seq![s@]);
    only
}

/// Part `i`; nothing where there are fewer parts.
pub open spec fn part(parts: Seq<Seq<char>>, i: int) -> Seq<char> {
    if 0 <= i < parts.len() {
        parts[i]
    } else {
        Seq::empty()
    }
}

pub fn part_of(parts: &Vec<String>, i: usize) -> (r: String)
    ensures
        r@ == part(texts(parts@), i as int),
{
    if i < parts.len() {
        parts[i].clone()
    } else {
        String::new()
    }
}

/// What follows the last `c`; all of `s` where it has none.
pub open spec fn after_last(s: Seq<char>, c: char) -> Seq<char> {
    match last_before(s, c, s.len() as int) {
        Some(k) => tail(s, k + 1),
        None => s,
    }
}

pub fn text_after_last(s: &str, c: char) -> (r: String)
    ensures
        r@ == after_last(s@, c),
{
    match rfind_char(s, c) {
        Some(k) => tail_of(s, k + 1),
        None => copy(s),
    }
}

/// What stands before the first `c`; all of `s` where it has none.
pub open spec fn before_first(s: Seq<char>, c: char) -> Seq<char> {
    match position(s, c) {
        Some(k) => head(s, k),
        None => s,
    }
}

pub fn text_before_first(s: &str, c: char) -> (r: String)
    ensures
        r@ == before_first(s@, c),
{
    match find_char(s, c) {
        Some(k) => head_of(s, k),
        None => copy(s),
    }
}

/// How many bytes a character takes up in UTF-8.
pub open spec fn char_bytes(c: char) -> nat {
    if (c as u32) < 0x80 {
        1
    } else if (c as u32) < 0x800 {
        2
    } else if (c as u32) < 0x10000 {
        3
    } else {
        4
    }
}

pub fn bytes_of_char(c: char) -> (r: usize)
    ensures
        r == char_bytes(c),
{
    let n: u32 = c as u32;
    if n < 0x80 {
        1
    } else if n < 0x800 {
        2
    } else if n < 0x10000 {
        3
    } else {
        4
    }
}

/// How many bytes the first `n` characters take up in UTF-8.
pub open spec fn bytes_upto(s: Seq<char>, n: int) -> nat
    decreases n,
{
    if n <= 0 {
        0
    } else {
        bytes_upto(s, n - 1) + char_bytes(s[n - 1])
    }
}

/// How many bytes a text takes up in UTF-8.
pub open spec fn byte_len(s: Seq<char>) -> nat {
    bytes_upto(s, s.len() as int)
}

/// The number of bytes of a text, as far as it can be counted.
pub open spec fn counted_bytes(s: Seq<char>) -> int {
    min_int(byte_len(s) as int, usize::MAX as int)
}

pub fn length_in_bytes(s: &str) -> (r: usize)
    ensures
        r == counted_bytes(s@),
{
    let v: Vec<char> = chars_of(s);
    let mut n: usize = 0;
    let mut i: usize = 0;
    while i < v.len()
        invariant
            i <= v@.len(),
            v@ == s@,
            n == min_int(bytes_upto(s@, i as int) as int, usize::MAX as int),
        decreases v@.len() - i,
    {
        n = n.saturating_add(bytes_of_char(v[i]));
        i += 1;
    }
    n
}

/// The value of the first `n` digits.
pub open spec fn digits_value(s: Seq<char>, n: int) -> nat
    decreases n,
{
    if n <= 0 {
        0
    } else {
        digits_value(s, n - 1) * 10 + (s[n - 1] as u32 - '0' as u32) as nat
    }
}

/// Whether `s` consists of digits only.
pub open spec fn all_digits(s: Seq<char>) -> bool {
    forall|i: int| 0 <= i < s.len() ==> digit(#[trigger] s[i])
}

pub fn is_all_digits(s: &str) -> (r: bool)
    ensures
        r == all_digits(s@),
{
    let v: Vec<char> = chars_of(s);
    let mut i: usize = 0;
    while i < v.len()
        invariant
            i <= v@.len(),
            v@ == s@,
            forall|j: int| 0 <= j < i ==> digit(#[trigger] v@[j]),
        decreases v@.len() - i,
    {
        if !is_digit(v[i]) {
            return false;
        }
        i += 1;
    }
    true
}

/// The number that `s` spells: digits, a plus sign before them allowed, where it is at most `max`.
pub open spec fn number(s: Seq<char>, max: nat) -> Option<nat> {
    let digits: Seq<char> = if s.len() > 1 && s[0] == '+' {
        tail(s, 1)
    } else {
        s
    };
    let value: nat = digits_value(digits, digits.len() as int);
    if digits.len() > 0 && all_digits(digits) && value <= max {
        Some(value)
    } else {
        None
    }
}

proof fn more_digits_more(s: Seq<char>, n: int, m: int)
    requires
        0 <= n <= m,
    ensures
        digits_value(s, n) <= digits_value(s, m),
    decreases m,
{
    if n < m {
        more_digits_more(s, n, m - 1);
        assert(digits_value(s, m - 1) * 10 >= digits_value(s, m - 1));
    }
}

pub fn parse_u128(s: &str) -> (r: Option<u128>)
    ensures
        match r {
            Some(x) => number(s@, u128::MAX as nat) == Some(x as nat),
            None => number(s@, u128::MAX as nat) is None,
        },
{
    let v: Vec<char> = chars_of(s);
    let from: usize = if v.len() > 1 && v[0] == '+' {
        1
    } else {
        0
    };
    let ghost digits: Seq<char> = if s@.len() > 1 && s@[0] == '+' {
        tail(s@, 1)
    } else {
        s@
    };
    assert(digits =~= v@.subrange(from as int, v@.len() as int));
    if from >= v.len() {
        return None;
    }
    let mut value: u128 = 0;
    let mut i: usize = from;
    while i < v.len()
        invariant
            from <= i <= v@.len(),
            digits == v@.subrange(from as int, v@.len() as int),
            digits.len() > 0,
            number(s@, u128::MAX as nat) == (if all_digits(digits) && digits_value(
                digits,
                digits.len() as int,
            ) <= u128::MAX {
                Some(digits_value(digits, digits.len() as int))
            } else {
                None
            }),
            forall|j: int| 0 <= j < i - from ==> digit(#[trigger] digits[j]),
            value == digits_value(digits, i - from),
        decreases v@.len() - i,
    {
        let c: char = v[i];
        assert(c == digits[i - from]);
        if !is_digit(c) {
            return None;
        }
        let d: u128 = (c as u32 - '0' as u32) as u128;
        assert(digits_value(digits, i - from + 1) == value * 10 + d);
        if value > (u128::MAX - d) / 10 {
            proof {
                more_digits_more(digits, i - from + 1, digits.len() as int);
            }
            return None;
        }
        value = value * 10 + d;
        i += 1;
    }
    Some(value)
}

pub fn parse_u64(s: &str) -> (r: Option<u64>)
    ensures
        match r {
            Some(x) => number(s@, u64::MAX as nat) == Some(x as nat),
            None => number(s@, u64::MAX as nat) is None,
        },
{
    match parse_u128(s) {
        Some(x) => if x <= u64::MAX as u128 {
            Some(x as u64)
        } else {
            None
        },
        None => None,
    }
}

/// Lines behind lines behind lines, in either grouping.
pub broadcast proof fn lines_associate(a: Seq<Seq<char>>, b: Seq<Seq<char>>, c: Seq<Seq<char>>)
    ensures
        #[trigger] ((a + b) + c) == a + (b + c),
{
    assert((a + b) + c =~= a + (b + c));
}

pub broadcast proof fn no_lines_behind(a: Seq<Seq<char>>)
    ensures
        #[trigger] (a + Seq::<Seq<char>>::empty()) == a,
{
    assert(a + Seq::<Seq<char>>::empty() =~= a);
}

pub broadcast group group_line_lists {
    lines_associate,
    no_lines_behind,
}

} // verus!
