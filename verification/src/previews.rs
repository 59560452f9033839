//! Short forms of long texts.

use vstd::prelude::*;

use crate::text;

verus! {

/// Those of the first `n` lines that are not blank, without the spaces around them.
pub open spec fn dark_lines(lines: Seq<Seq<char>>, n: int) -> Seq<Seq<char>>
    decreases n,
{
    if n <= 0 {
        Seq::empty()
    } else {
        let bare: Seq<char> = text::trimmed(lines[n - 1]);
        if bare.len() > 0 {
            dark_lines(lines, n - 1).push(bare)
        } else {
            dark_lines(lines, n - 1)
        }
    }
}

/// The lines of a text on one line.
pub open spec fn on_one_line(s: Seq<char>, sep: Seq<char>) -> Seq<char> {
    let lines: Seq<Seq<char>> = text::lines_of(s);
    text::joined(dark_lines(lines, lines.len() as int), sep)
}

pub fn one_line(s: &str, sep: &str) -> (r: String)
    ensures
        r@ == on_one_line(s@, sep@),
{
    broadcast use text::group_texts;

    let lines: Vec<String> = text::lines(s);
    let ghost all: Seq<Seq<char>> = text::texts(lines@);
    let mut kept: Vec<String> = Vec::new();
    let mut i: usize = 0;
    while i < lines.len()
        invariant
            i <= lines@.len(),
            all == text::texts(lines@),
            text::texts(kept@) == dark_lines(all, i as int),
        decreases lines@.len() - i,
    {
        assert(all[i as int] == lines@[i as int]@);
        let bare: String = text::trim(lines[i].as_str());
        if text::length(bare.as_str()) > 0 {
            kept.push(bare);
        }
        i += 1;
    }
    text::join(&kept, sep)
}

/// A text on one line of about `max` characters.
pub open spec fn preview(s: Seq<char>, max: int) -> Seq<char> {
    let line: Seq<char> = on_one_line(s, " / "@);
    if line.len() <= max {
        line
    } else {
        text::head(line, max) + "..."@
    }
}

pub fn summarize_text_preview(s: &str, max_chars: usize) -> (r: String)
    ensures
        r@ == preview(s@, max_chars as int),
{
    let line: String = one_line(s, " / ");
    if text::length(line.as_str()) <= max_chars {
        line
    } else {
        let head: String = text::head_of(line.as_str(), max_chars);
        text::cat2(head.as_str(), "...")
    }
}

/// A preview is at most three characters longer than it was asked to be.
pub proof fn preview_is_short(s: Seq<char>, max: int)
    requires
        0 <= max,
    ensures
        preview(s, max).len() <= max + 3,
{
    reveal_strlit("...");
}

/// The first few items on one line, and how many there are beside them.
pub open spec fn items_summary(items: Seq<Seq<char>>, limit: int) -> Seq<char> {
    let shown: Seq<Seq<char>> = if items.len() <= limit {
        items
    } else {
        items.take(limit)
    };
    if shown.len() == 0 {
        Seq::empty()
    } else if items.len() > shown.len() {
        text::joined(shown, "; "@) + "; +"@ + text::decimal((items.len() - shown.len()) as nat)
            + " more"@
    } else {
        text::joined(shown, "; "@)
    }
}

pub fn summarize_items(items: &Vec<String>, limit: usize) -> (r: String)
    ensures
        r@ == items_summary(text::texts(items@), limit as int),
{
    broadcast use text::group_texts;

    let ghost all: Seq<Seq<char>> = text::texts(items@);
    let count: usize = text::min_of(items.len(), limit);
    if count == 0 {
        let none: String = String::new();
        assert(none@ =~= Seq::<char>::empty());
        return none;
    }
    let mut shown: Vec<String> = Vec::new();
    let mut i: usize = 0;
    assert(text::texts(shown@) =~= all.take(0));
    while i < count
        invariant
            i <= count <= items@.len(),
            all == text::texts(items@),
            text::texts(shown@) == all.take(i as int),
        decreases count - i,
    {
        shown.push(items[i].clone());
        i += 1;
        assert(all.take(i as int) =~= all.take(i - 1).push(items@[i - 1]@));
    }
    let line: String = text::join(&shown, "; ");
    if items.len() > count {
        let more: String = text::decimal_usize(items.len() - count);
        text::cat4(line.as_str(), "; +", more.as_str(), " more")
    } else {
        assert(all.take(i as int) =~= all);
        line
    }
}

} // verus!
