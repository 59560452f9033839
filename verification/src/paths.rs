//! Names in paths.

use vstd::prelude::*;

use crate::text;

verus! {

/// A path without the slashes at its end, and the dots that stand for the directory itself.
pub open spec fn without_end(s: Seq<char>) -> Seq<char>
    decreases s.len(),
{
    if s.len() > 0 && (s.last() == '/' || (s.len() > 1 && s.last() == '.' && s[s.len() - 2] == '/'))
    {
        without_end(s.drop_last())
    } else {
        s
    }
}

/// The last name in a path; none where it ends in a directory that has no name of its own.
pub open spec fn last_name(s: Seq<char>) -> Option<Seq<char>> {
    let name: Seq<char> = text::after_last(without_end(s), '/');
    if name.len() == 0 || name == "."@ || name == ".."@ {
        None
    } else {
        Some(name)
    }
}

fn cut_end(s: &str) -> (r: String)
    ensures
        r@ == without_end(s@),
{
    let v: Vec<char> = text::chars_of(s);
    let mut n: usize = v.len();
    assert(s@.take(n as int) =~= s@);
    while n > 0 && (v[n - 1] == '/' || (n > 1 && v[n - 1] == '.' && v[n - 2] == '/'))
        invariant
            n <= v@.len(),
            v@ == s@,
            without_end(s@) == without_end(s@.take(n as int)),
        decreases n,
    {
        assert(s@.take(n as int).drop_last() =~= s@.take(n - 1));
        n -= 1;
    }
    assert(s@.take(n as int) =~= text::head(s@, n as int));
    text::head_of(s, n)
}

pub fn file_name(s: &str) -> (r: Option<String>)
    ensures
        text::opt_text(r) == last_name(s@),
{
    let path: String = cut_end(s);
    let name: String = text::text_after_last(path.as_str(), '/');
    if text::length(name.as_str()) == 0 || text::str_eq(name.as_str(), ".") || text::str_eq(
        name.as_str(),
        "..",
    ) {
        None
    } else {
        Some(name)
    }
}

/// The last name in a path, or the path where it has none.
pub open spec fn name_or_path(s: Seq<char>) -> Seq<char> {
    match last_name(s) {
        Some(n) => n,
        None => s,
    }
}

pub fn file_name_or_path(s: &str) -> (r: String)
    ensures
        r@ == name_or_path(s@),
{
    match file_name(s) {
        Some(n) => n,
        None => text::copy(s),
    }
}

} // verus!
