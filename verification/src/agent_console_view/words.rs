//! What the words of a message look like: numbers, links, paths, commands.

use vstd::prelude::*;

use crate::text;

verus! {

/// Whether one of the first `n` characters is a digit.
pub open spec fn some_digit(s: Seq<char>, n: int) -> bool {
    exists|j: int| 0 <= j < n && text::digit(#[trigger] s[j])
}

/// Whether a character may stand at the end of a number without being part of it.
pub open spec fn closing(c: char) -> bool {
    c == ',' || c == '.' || c == ')' || c == ']' || c == '}'
}

/// `s` without closing characters at its ends.
pub open spec fn unclosed(s: Seq<char>) -> Seq<char>
    decreases s.len(),
{
    if s.len() > 0 && closing(s[0]) {
        unclosed(s.subrange(1, s.len() as int))
    } else if s.len() > 0 && closing(s.last()) {
        unclosed(s.subrange(0, s.len() - 1))
    } else {
        s
    }
}

/// Whether a character may stand in a number.
pub open spec fn in_number(c: char) -> bool {
    c == '.' || c == ',' || c == '%' || c == '+' || c == '-'
}

/// Whether `s` reads as a number: it has a digit, and letters only behind one.
pub open spec fn numberish(s: Seq<char>) -> bool {
    let t: Seq<char> = unclosed(text::trimmed(s));
    &&& some_digit(t, t.len() as int)
    &&& forall|i: int|
        0 <= i < t.len() ==> text::digit(#[trigger] t[i]) || in_number(t[i]) || (text::alpha(t[i])
            && some_digit(t, i))
}

fn is_closing(c: char) -> (r: bool)
    ensures
        r == closing(c),
{
    c == ',' || c == '.' || c == ')' || c == ']' || c == '}'
}

fn trim_closing(s: &str) -> (r: Vec<char>)
    ensures
        r@ == unclosed(s@),
{
    let v: Vec<char> = text::chars_of(s);
    let mut from: usize = 0;
    let mut to: usize = v.len();
    assert(v@.subrange(0, to as int) =~= s@);
    while from < to && is_closing(v[from])
        invariant
            from <= to == v@.len(),
            unclosed(v@.subrange(from as int, to as int)) == unclosed(s@),
        decreases to - from,
    {
        let ghost rest: Seq<char> = v@.subrange(from as int, to as int);
        assert(rest.subrange(1, rest.len() as int) =~= v@.subrange(from + 1, to as int));
        from += 1;
    }
    while from < to && is_closing(v[to - 1])
        invariant
            from <= to <= v@.len(),
            from < to ==> !closing(v@[from as int]),
            unclosed(v@.subrange(from as int, to as int)) == unclosed(s@),
        decreases to - from,
    {
        let ghost rest: Seq<char> = v@.subrange(from as int, to as int);
        assert(rest.subrange(0, rest.len() - 1) =~= v@.subrange(from as int, to - 1));
        to -= 1;
    }
    let mut out: Vec<char> = Vec::new();
    let mut i: usize = from;
    while i < to
        invariant
            from <= i <= to <= v@.len(),
            out@ == v@.subrange(from as int, i as int),
        decreases to - i,
    {
        out.push(v[i]);
        i += 1;
        assert(out@ =~= v@.subrange(from as int, i as int));
    }
    let ghost rest: Seq<char> = v@.subrange(from as int, to as int);
    assert(rest.len() > 0 ==> rest[0] == v@[from as int] && rest.last() == v@[to - 1]);
    out
}

pub fn looks_like_numberish(s: &str) -> (r: bool)
    ensures
        r == numberish(s@),
{
    let bare: String = text::trim(s);
    let t: Vec<char> = trim_closing(bare.as_str());
    let mut saw_digit: bool = false;
    let mut i: usize = 0;
    while i < t.len()
        invariant
            i <= t@.len(),
            t@ == unclosed(text::trimmed(s@)),
            saw_digit == some_digit(t@, i as int),
            forall|k: int|
                0 <= k < i ==> text::digit(#[trigger] t@[k]) || in_number(t@[k]) || (text::alpha(
                    t@[k],
                ) && some_digit(t@, k)),
        decreases t@.len() - i,
    {
        let c: char = t[i];
        if text::is_digit(c) {
            assert(text::digit(t@[i as int]));
            saw_digit = true;
        } else if c == '.' || c == ',' || c == '%' || c == '+' || c == '-' {
        } else if saw_digit && text::is_alpha(c) {
        } else {
            assert(t@[i as int] == c);
            return false;
        }
        i += 1;
    }
    saw_digit
}

/// Whether a colon is followed by a digit, other than the one behind a drive letter.
pub open spec fn colon_number(s: Seq<char>) -> bool {
    exists|i: int|
        0 <= i && i + 1 < s.len() && #[trigger] s[i] == ':' && !(i == 1 && text::alpha(s[0]))
            && text::digit(s[i + 1])
}

pub fn contains_colon_number(s: &str) -> (r: bool)
    ensures
        r == colon_number(s@),
{
    let v: Vec<char> = text::chars_of(s);
    let n: usize = v.len();
    let mut i: usize = 0;
    while i < n
        invariant
            n == v@.len(),
            v@ == s@,
            i <= n,
            forall|k: int|
                0 <= k < i && k + 1 < n ==> !(#[trigger] v@[k] == ':' && !(k == 1 && text::alpha(
                    v@[0],
                )) && text::digit(v@[k + 1])),
        decreases n - i,
    {
        if v[i] == ':' && !(i == 1 && text::is_alpha(v[0])) && i < n - 1 && text::is_digit(
            v[i + 1],
        ) {
            assert(s@[i as int] == ':');
            return true;
        }
        i += 1;
    }
    false
}

/// Whether a character parts the names of a path.
pub open spec fn path_sep(c: char) -> bool {
    c == '/' || c == '\\'
}

/// The last name of a path among the first `n` characters starts here.
pub open spec fn name_start(s: Seq<char>, n: int) -> Option<int>
    decreases n,
{
    if n <= 0 || n > s.len() {
        None
    } else if path_sep(s[n - 1]) {
        Some(n)
    } else {
        name_start(s, n - 1)
    }
}

/// Whether the last name of a path has a dot.
pub open spec fn file_path(s: Seq<char>) -> bool {
    match name_start(s, s.len() as int) {
        Some(k) => text::has(text::tail(s, k), '.'),
        None => false,
    }
}

pub fn looks_like_file_path(s: &str) -> (r: bool)
    ensures
        r == file_path(s@),
{
    let v: Vec<char> = text::chars_of(s);
    let mut n: usize = v.len();
    while n > 0 && !(v[n - 1] == '/' || v[n - 1] == '\\')
        invariant
            n <= v@.len(),
            v@ == s@,
            name_start(s@, n as int) == name_start(s@, s@.len() as int),
        decreases n,
    {
        n -= 1;
    }
    if n == 0 {
        return false;
    }
    let name: String = text::tail_of(s, n);
    text::has_char(name.as_str(), '.')
}

/// Whether a line number stands behind the first `#L`.
pub open spec fn line_mark(s: Seq<char>) -> bool {
    match text::find(s, "#L"@) {
        Some(k) => k + 2 < s.len() && text::digit(s[k + 2]),
        None => false,
    }
}

fn has_line_mark(s: &str) -> (r: bool)
    ensures
        r == line_mark(s@),
{
    proof {
        reveal_strlit("#L");
    }
    match text::find_text(s, "#L") {
        Some(k) => {
            let v: Vec<char> = text::chars_of(s);
            k + 1 < v.len() - 1 && text::is_digit(v[k + 2])
        },
        None => false,
    }
}

/// Whether a text names a page, a file or a place in one.
pub open spec fn link_or_path(s: Seq<char>) -> bool {
    let t: Seq<char> = text::trimmed(s);
    let parted: bool = text::has(t, '/') || text::has(t, '\\');
    t.len() > 0 && (text::starts(t, "http://"@) || text::starts(t, "https://"@) || line_mark(t) || (
    colon_number(t) && (parted || text::has(t, '.'))) || (parted && file_path(t)))
}

pub fn looks_like_link_or_path_ref(s: &str) -> (r: bool)
    ensures
        r == link_or_path(s@),
{
    let bare: String = text::trim(s);
    let t: &str = bare.as_str();
    if text::length(t) == 0 {
        return false;
    }
    if text::starts_with(t, "http://") || text::starts_with(t, "https://") {
        return true;
    }
    if has_line_mark(t) {
        return true;
    }
    let parted: bool = text::has_char(t, '/') || text::has_char(t, '\\');
    if contains_colon_number(t) && (parted || text::has_char(t, '.')) {
        return true;
    }
    parted && looks_like_file_path(t)
}

/// Whether a word is the name of a program that is often called.
pub open spec fn tool(s: Seq<char>) -> bool {
    s == "cargo"@ || s == "git"@ || s == "rg"@ || s == "sed"@ || s == "npm"@ || s == "yarn"@ || s
        == "pnpm"@ || s == "python"@ || s == "python3"@ || s == "node"@ || s == "go"@ || s
        == "make"@ || s == "docker"@ || s == "kubectl"@ || s == "codex"@ || s == "nit"@ || s
        == "curl"@ || s == "wget"@ || s == "bash"@ || s == "zsh"@
}

fn is_tool(s: &str) -> (r: bool)
    ensures
        r == tool(s@),
{
    text::str_eq(s, "cargo") || text::str_eq(s, "git") || text::str_eq(s, "rg") || text::str_eq(
        s,
        "sed",
    ) || text::str_eq(s, "npm") || text::str_eq(s, "yarn") || text::str_eq(s, "pnpm")
        || text::str_eq(s, "python") || text::str_eq(s, "python3") || text::str_eq(s, "node")
        || text::str_eq(s, "go") || text::str_eq(s, "make") || text::str_eq(s, "docker")
        || text::str_eq(s, "kubectl") || text::str_eq(s, "codex") || text::str_eq(s, "nit")
        || text::str_eq(s, "curl") || text::str_eq(s, "wget") || text::str_eq(s, "bash")
        || text::str_eq(s, "zsh")
}

/// Whether a text reads as a command: several words, or the name of a program.
pub open spec fn command(s: Seq<char>) -> bool {
    let t: Seq<char> = text::trimmed(s);
    t.len() > 0 && (text::has(t, '\n') || text::has(t, '\r') || text::has(t, ' ') || text::has(
        t,
        '\t',
    ) || tool(text::lowered_text(t)))
}

pub fn looks_like_command(s: &str) -> (r: bool)
    ensures
        r == command(s@),
{
    let bare: String = text::trim(s);
    let t: &str = bare.as_str();
    if text::length(t) == 0 {
        return false;
    }
    if text::has_char(t, '\n') || text::has_char(t, '\r') || text::has_char(t, ' ')
        || text::has_char(t, '\t') {
        return true;
    }
    let lowered: String = text::lower_of(t);
    is_tool(lowered.as_str())
}

/// Whether a character is one of the eight bars that a heartbeat is drawn with.
pub open spec fn bar(c: char) -> bool {
    c == '▁' || c == '▂' || c == '▃' || c == '▄' || c == '▅' || c == '▆' || c == '▇' || c == '█'
}

/// Whether a word is a heartbeat: six bars.
pub open spec fn ecg(s: Seq<char>) -> bool {
    s.len() == 6 && forall|i: int| 0 <= i < s.len() ==> bar(#[trigger] s[i])
}

pub fn looks_like_ecg(s: &str) -> (r: bool)
    ensures
        r == ecg(s@),
{
    let v: Vec<char> = text::chars_of(s);
    let mut i: usize = 0;
    while i < v.len()
        invariant
            i <= v@.len(),
            v@ == s@,
            forall|k: int| 0 <= k < i ==> bar(#[trigger] v@[k]),
        decreases v@.len() - i,
    {
        let c: char = v[i];
        if !(c == '▁' || c == '▂' || c == '▃' || c == '▄' || c == '▅' || c == '▆' || c == '▇' || c
            == '█') {
            assert(!bar(s@[i as int]));
            return false;
        }
        i += 1;
    }
    v.len() == 6
}

} // verus!
