//! What the editor shows, as far as it is read here.

use vstd::prelude::*;

use crate::style::Style;
use crate::text;

verus! {

/// The term that is searched for. `live` while it is still being typed: the match under the caret
/// is then shown more strongly.
#[derive(Clone, Copy, Debug)]
pub struct SearchHighlight<'a> {
    pub term: &'a str,
    pub whole_word: bool,
    pub case_insensitive: bool,
    pub live: bool,
}

/// A cell of the screen.
#[derive(Clone, Copy, Debug, PartialEq, Eq, Structural)]
pub struct CursorPlacement {
    pub x: u16,
    pub y: u16,
}

/// How a line differs from the saved one.
#[derive(Clone, Copy, Debug, PartialEq, Eq, Structural)]
pub enum LineDiffStatus {
    Unchanged,
    Added,
    Modified,
    DeletedAbove,
}

#[derive(Clone, Copy, Debug, PartialEq, Eq, Structural)]
pub enum Mode {
    Normal,
    Insert,
    Visual,
}

/// A range of characters of a line with its style; `quoted` inside a string or a comment.
#[derive(Clone, Copy, Debug, PartialEq, Eq, Structural)]
pub struct Segment {
    pub start: usize,
    pub end: usize,
    pub style: Style,
    pub quoted: bool,
}

/// A range that does not fit its line.
#[derive(Clone, Copy, Debug, PartialEq, Eq, Structural)]
pub struct SegmentMapError {
    pub start: usize,
    pub end: usize,
    pub line_len: usize,
}

/// The last analysis of the text: for each of its lines what the line held, and the ranges of the
/// line that is shown from it.
pub struct HighlightSnapshot {
    pub line_hashes: Vec<u64>,
    pub per_line: Vec<Result<Vec<Segment>, SegmentMapError>>,
    /// For each line of the text its line in the analysis, where they are not the same.
    pub line_map: Option<Vec<Option<usize>>>,
}

/// The part of the text that is shown.
#[derive(Clone, Copy, Debug, PartialEq, Eq, Structural)]
pub struct Viewport {
    pub offset_line: usize,
    pub offset_col: usize,
    pub height: usize,
    pub width: usize,
}

/// A line of the text.
pub struct BufferLine {
    /// The line with its line end.
    pub text: String,
    /// What the line holds, in short.
    pub hash: u64,
    /// The places of the line in the text, in characters.
    pub char_start: usize,
    pub char_end: usize,
    /// Where the searched term stands in it.
    pub matches: Vec<(usize, usize)>,
    pub diff: LineDiffStatus,
}

pub struct Buffer {
    pub lines: Vec<BufferLine>,
    /// What an empty line holds, in short.
    pub empty_hash: u64,
    pub cursor_line: usize,
    pub cursor_col: usize,
    pub viewport: Viewport,
    pub selection: Option<(usize, usize)>,
    /// The line and column of the bracket that matches the one under the caret.
    pub bracket_partner: Option<(usize, usize)>,
}

/// A line with its line end; nothing behind the last line.
pub open spec fn line_text(b: Buffer, i: int) -> Seq<char> {
    if 0 <= i < b.lines@.len() {
        b.lines@[i].text@
    } else {
        Seq::empty()
    }
}

/// The number of lines, one for an empty text.
pub open spec fn total_lines(b: Buffer) -> int {
    text::max_int(b.lines@.len() as int, 1)
}

pub fn line_total(b: &Buffer) -> (r: usize)
    ensures
        r == total_lines(*b),
{
    text::max_of(b.lines.len(), 1)
}

/// Text without its carriage returns.
pub open spec fn without_returns(s: Seq<char>, n: int) -> Seq<char>
    decreases n,
{
    if n <= 0 {
        Seq::empty()
    } else if s[n - 1] == '\r' {
        without_returns(s, n - 1)
    } else {
        without_returns(s, n - 1).push(s[n - 1])
    }
}

/// Text without one line end behind it.
pub open spec fn without_line_end(s: Seq<char>) -> Seq<char> {
    if s.len() > 0 && s.last() == '\n' {
        s.drop_last()
    } else {
        s
    }
}

/// A line as it is shown.
pub open spec fn content(b: Buffer, i: int) -> Seq<char> {
    let s: Seq<char> = line_text(b, i);
    without_line_end(without_returns(s, s.len() as int))
}

pub fn line_text_at(b: &Buffer, i: usize) -> (r: Vec<char>)
    ensures
        r@ == content(*b, i as int),
{
    let mut out: Vec<char> = Vec::new();
    if i >= b.lines.len() {
        assert(content(*b, i as int) =~= Seq::<char>::empty());
        return out;
    }
    let v: Vec<char> = text::chars_of(b.lines[i].text.as_str());
    let mut k: usize = 0;
    while k < v.len()
        invariant
            k <= v@.len(),
            out@ == without_returns(v@, k as int),
        decreases v@.len() - k,
    {
        if v[k] != '\r' {
            out.push(v[k]);
        }
        k += 1;
    }
    let n: usize = out.len();
    if n > 0 && out[n - 1] == '\n' {
        let ghost before: Seq<char> = out@;
        out.truncate(n - 1);
        assert(out@ =~= before.drop_last());
    }
    out
}

/// How a line differs from the saved one.
pub open spec fn diff_of(b: Buffer, i: int) -> LineDiffStatus {
    if 0 <= i < b.lines@.len() {
        b.lines@[i].diff
    } else {
        LineDiffStatus::Unchanged
    }
}

pub fn line_diff(b: &Buffer, i: usize) -> (r: LineDiffStatus)
    ensures
        r == diff_of(*b, i as int),
{
    if i < b.lines.len() {
        b.lines[i].diff
    } else {
        LineDiffStatus::Unchanged
    }
}

/// What a line holds, in short.
pub open spec fn hash_of(b: Buffer, i: int) -> u64 {
    if 0 <= i < b.lines@.len() {
        b.lines@[i].hash
    } else {
        b.empty_hash
    }
}

fn line_hash(b: &Buffer, i: usize) -> (r: u64)
    ensures
        r == hash_of(*b, i as int),
{
    if i < b.lines.len() {
        b.lines[i].hash
    } else {
        b.empty_hash
    }
}

/// The line of the analysis that a line could be taken from: the one it was, or the one at its place
/// where that holds the same.
pub open spec fn source_line(b: Buffer, s: HighlightSnapshot, i: int) -> Option<int> {
    let mapped: Option<int> = match s.line_map {
        Some(map) => if 0 <= i < map@.len() {
            match map@[i] {
                Some(k) => Some(k as int),
                None => None,
            }
        } else {
            None
        },
        None => Some(i),
    };
    match mapped {
        Some(k) => Some(k),
        None => if 0 <= i < s.line_hashes@.len() && s.line_hashes@[i] == hash_of(b, i) {
            Some(i)
        } else {
            None
        },
    }
}

/// What the analysis says of a line: nothing where the line has changed since.
pub open spec fn analysed(b: Buffer, s: HighlightSnapshot, i: int) -> Option<
    Result<Vec<Segment>, SegmentMapError>,
> {
    match source_line(b, s, i) {
        None => None,
        Some(k) => if k < s.line_hashes@.len() && s.line_hashes@[k] != hash_of(b, i) {
            None
        } else if k < s.per_line@.len() {
            Some(s.per_line@[k])
        } else {
            None
        },
    }
}

/// The ranges of a line.
pub open spec fn segments_of(b: Buffer, s: Option<HighlightSnapshot>, i: int) -> Option<Seq<Segment>> {
    match s {
        Some(snap) => match analysed(b, snap, i) {
            Some(Ok(v)) => Some(v@),
            _ => None,
        },
        None => None,
    }
}

/// The range of a line that does not fit it.
pub open spec fn error_of(b: Buffer, s: Option<HighlightSnapshot>, i: int) -> Option<SegmentMapError> {
    match s {
        Some(snap) => match analysed(b, snap, i) {
            Some(Err(e)) => Some(e),
            _ => None,
        },
        None => None,
    }
}

/// Ranges as a value.
pub open spec fn opt_segments(v: Option<&Vec<Segment>>) -> Option<Seq<Segment>> {
    match v {
        Some(s) => Some(s@),
        None => None,
    }
}

pub fn map_snapshot_for_line<'a>(b: &Buffer, s: &'a Option<HighlightSnapshot>, i: usize) -> (r: (
    Option<&'a Vec<Segment>>,
    Option<SegmentMapError>,
))
    ensures
        opt_segments(r.0) == segments_of(*b, *s, i as int),
        r.1 == error_of(*b, *s, i as int),
{
    let snap: &HighlightSnapshot = match s {
        Some(snap) => snap,
        None => {
            return (None, None);
        },
    };
    let now: u64 = line_hash(b, i);
    let mapped: Option<usize> = match &snap.line_map {
        Some(map) => if i < map.len() {
            map[i]
        } else {
            None
        },
        None => Some(i),
    };
    let k: usize = match mapped {
        Some(k) => k,
        None => if i < snap.line_hashes.len() && snap.line_hashes[i] == now {
            i
        } else {
            return (None, None);
        },
    };
    if k < snap.line_hashes.len() && snap.line_hashes[k] != now {
        return (None, None);
    }
    if k >= snap.per_line.len() {
        return (None, None);
    }
    match &snap.per_line[k] {
        Ok(v) => (Some(v), None),
        Err(e) => (None, Some(*e)),
    }
}

/// A line whose content has changed since the analysis is shown without its colors.
pub proof fn changed_lines_lose_their_colors(b: Buffer, s: HighlightSnapshot, i: int)
    requires
        0 <= i,
        source_line(b, s, i) matches Some(k) && k < s.line_hashes@.len() && s.line_hashes@[k]
            != hash_of(b, i),
    ensures
        segments_of(b, Some(s), i) is None,
{
}

} // verus!
