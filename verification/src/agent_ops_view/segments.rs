//! Lines of labels and values, set apart by bars.

use vstd::prelude::*;

use crate::agent_ops_view::styles;
use crate::style;
use crate::style::Line;
use crate::style::Piece;
use crate::style::Span;
use crate::style::Style;
use crate::text;

verus! {

/// The label and the value of a segment.
pub open spec fn label_value(seg: Seq<char>) -> (Seq<char>, Seq<char>) {
    match text::around(seg, ":"@) {
        Some(parts) => (text::trimmed(parts.0), text::trimmed(parts.1)),
        None => (text::trimmed(seg), Seq::empty()),
    }
}

/// What stands before the label of a segment.
pub open spec fn before_name(seg: Seq<char>) -> Seq<char> {
    match text::around(seg, ":"@) {
        Some(parts) => text::lead(parts.0),
        None => text::lead(seg),
    }
}

/// The label of a segment as it is drawn, with its colon.
pub open spec fn name(seg: Seq<char>) -> Seq<char> {
    match text::around(seg, ":"@) {
        Some(parts) => text::trimmed_start(parts.0) + ":"@,
        None => text::trimmed(seg),
    }
}

/// What stands behind the label of a segment.
pub open spec fn behind_name(seg: Seq<char>) -> Seq<char> {
    match text::around(seg, ":"@) {
        Some(parts) => parts.1,
        None => text::tail(text::trimmed_start(seg), text::trimmed(seg).len() as int),
    }
}

/// What stands between the label and the value.
pub open spec fn gap(seg: Seq<char>) -> Seq<char> {
    text::lead(behind_name(seg))
}

/// What stands behind the value; where there is none, behind the label.
pub open spec fn behind_value(seg: Seq<char>) -> Seq<char> {
    let value: Seq<char> = label_value(seg).1;
    if value.len() == 0 {
        behind_name(seg)
    } else {
        text::tail(text::trimmed_start(behind_name(seg)), value.len() as int)
    }
}

/// A segment cut into what is drawn of it.
pub struct Segment {
    pub label: String,
    pub value: String,
    pub before: String,
    pub name: String,
    pub gap: String,
    pub behind: String,
}

impl Segment {
    pub open spec fn cuts(self, seg: Seq<char>) -> bool {
        &&& (self.label@, self.value@) == label_value(seg)
        &&& self.before@ == before_name(seg)
        &&& self.name@ == name(seg)
        &&& self.gap@ == gap(seg)
        &&& self.behind@ == behind_value(seg)
    }
}

pub fn cut(seg: &str) -> (r: Segment)
    ensures
        r.cuts(seg@),
{
    match text::split_once(seg, ":") {
        Some(parts) => {
            let rest: &str = parts.1.as_str();
            let value: String = text::trim(rest);
            let bare: String = text::trim_start(rest);
            let behind: String = if text::length(value.as_str()) == 0 {
                text::copy(rest)
            } else {
                text::tail_of(bare.as_str(), text::length(value.as_str()))
            };
            Segment {
                label: text::trim(parts.0.as_str()),
                value,
                before: text::lead_of(parts.0.as_str()),
                name: text::cat2(text::trim_start(parts.0.as_str()).as_str(), ":"),
                gap: text::lead_of(rest),
                behind,
            }
        },
        None => {
            let bare: String = text::trim_start(seg);
            let label: String = text::trim(seg);
            let rest: String = text::tail_of(bare.as_str(), text::length(label.as_str()));
            let none: String = String::new();
            assert(none@ =~= Seq::<char>::empty());
            Segment {
                before: text::lead_of(seg),
                name: text::copy(label.as_str()),
                label,
                value: none,
                gap: text::lead_of(rest.as_str()),
                behind: rest,
            }
        },
    }
}

/// The parts of a segment make it again.
proof fn parts_make_whole(seg: Seq<char>)
    ensures
        ({
            let value: Seq<char> = label_value(seg).1;
            before_name(seg) + name(seg) + (if value.len() == 0 {
                Seq::empty()
            } else {
                gap(seg) + value
            }) + behind_value(seg) == seg
        }),
{
    let value: Seq<char> = label_value(seg).1;
    let rest: Seq<char> = behind_name(seg);
    text::around_makes_whole(seg, ":"@);
    match text::around(seg, ":"@) {
        Some(parts) => {
            text::lead_and_rest(parts.0);
            assert(before_name(seg) + name(seg) + rest =~= seg);
        },
        None => {
            let bare: Seq<char> = text::trimmed_start(seg);
            text::lead_and_rest(seg);
            text::trimmed_end_is_head(bare);
            text::head_tail(bare, text::trimmed(seg).len() as int);
            assert(before_name(seg) + name(seg) + rest =~= seg);
        },
    }
    if value.len() > 0 {
        let bare: Seq<char> = text::trimmed_start(rest);
        text::lead_and_rest(rest);
        text::trimmed_end_is_head(bare);
        text::head_tail(bare, value.len() as int);
        assert(gap(seg) + value + behind_value(seg) =~= rest);
        assert(before_name(seg) + name(seg) + (gap(seg) + value) + behind_value(seg)
            =~= before_name(seg) + name(seg) + (gap(seg) + value + behind_value(seg)));
    } else {
        assert(before_name(seg) + name(seg) + Seq::<char>::empty() + rest =~= before_name(seg)
            + name(seg) + rest);
    }
}

/// One segment behind what stands before it: `look` for its label, `plain` for the gap behind it,
/// and for the value what `value_look` says of both.
pub open spec fn with_segment(before: Seq<Piece>, seg: Seq<char>, look: Style, plain: Style, value_look: spec_fn(Seq<char>, Seq<char>) -> Style) -> Seq<Piece> {
    let (label, value) = label_value(seg);
    let named: Seq<Piece> = before.push(style::piece(name(seg), look));
    if value.len() == 0 {
        named
    } else {
        named.push(style::piece(gap(seg), plain)).push(
            style::piece(value, value_look(label, value)),
        )
    }
}

/// The first `n` segments, each a label and its value, behind what stands before them.
pub open spec fn pieces_upto(
    before: Seq<Piece>,
    segs: Seq<Seq<char>>,
    look: Style,
    plain: Style,
    value_look: spec_fn(Seq<char>, Seq<char>) -> Style,
    n: int,
) -> Seq<Piece>
    decreases n,
{
    if n <= 0 {
        before
    } else if n == 1 {
        with_segment(styles::with_rest(before, before_name(segs[0]), plain), segs[0], look, plain, value_look)
    } else {
        with_segment(
            pieces_upto(before, segs, look, plain, value_look, n - 1).push(
                style::piece(
                    behind_value(segs[n - 2]) + "|"@ + before_name(segs[n - 1]),
                    look,
                ),
            ),
            segs[n - 1],
            look,
        plain,
        value_look,
        )
    }
}

/// The segments of a text behind what stands before them.
pub open spec fn pieces(before: Seq<Piece>, s: Seq<char>, look: Style, plain: Style, value_look: spec_fn(Seq<char>, Seq<char>) -> Style) -> Seq<Piece> {
    let segs: Seq<Seq<char>> = text::split_at_char(s, '|');
    styles::with_rest(
        pieces_upto(before, segs, look, plain, value_look, segs.len() as int),
        behind_value(segs.last()),
        plain,
    )
}

pub fn push_segment(spans: Vec<Span>, seg: &Segment, name: Style, gap: Style, value: Style) -> (r:
    Vec<Span>)
    ensures
        style::pieces(r@) == (if seg.value@.len() == 0 {
            style::pieces(spans@).push(style::piece(seg.name@, name))
        } else {
            style::pieces(spans@).push(style::piece(seg.name@, name)).push(
                style::piece(seg.gap@, gap),
            ).push(style::piece(seg.value@, value))
        }),
{
    broadcast use style::group_lines;

    let mut out: Vec<Span> = spans;
    out.push(style::span(seg.name.as_str(), name));
    if text::length(seg.value.as_str()) > 0 {
        out.push(style::span(seg.gap.as_str(), gap));
        out.push(style::span(seg.value.as_str(), value));
    }
    out
}

proof fn segment_keeps_text(before: Seq<Piece>, seg: Seq<char>, look: Style, plain: Style, value_look: spec_fn(Seq<char>, Seq<char>) -> Style)
    ensures
        style::plain_text(with_segment(before, seg, look, plain, value_look)) + behind_value(seg)
            == style::plain_text(before) + name(seg) + (if label_value(seg).1.len() == 0 {
            Seq::empty()
        } else {
            gap(seg) + label_value(seg).1
        }) + behind_value(seg),
{
    let (label, value) = label_value(seg);
    let a: Piece = style::piece(name(seg), look);
    let b: Piece = style::piece(gap(seg), plain);
    let c: Piece = style::piece(value, value_look(label, value));
    style::plain_text_push(before, a);
    style::plain_text_push(before.push(a), b);
    style::plain_text_push(before.push(a).push(b), c);
    let t: Seq<char> = style::plain_text(before);
    assert(t + name(seg) + Seq::<char>::empty() =~= t + name(seg));
    assert(t + name(seg) + gap(seg) + value =~= t + name(seg) + (gap(seg) + value));
}

proof fn regrouped(
    a: Seq<char>,
    b: Seq<char>,
    c: Seq<char>,
    d: Seq<char>,
    e: Seq<char>,
    f: Seq<char>,
    g: Seq<char>,
)
    ensures
        a + (b + c + d) + e + f + g == (a + b) + c + (d + e + f + g),
{
    assert(a + (b + c + d) + e + f + g =~= (a + b) + c + (d + e + f + g));
}

proof fn segments_keep_text(before: Seq<Piece>, segs: Seq<Seq<char>>, look: Style, plain: Style, value_look: spec_fn(Seq<char>, Seq<char>) -> Style, n: int)
    requires
        1 <= n <= segs.len(),
    ensures
        style::plain_text(pieces_upto(before, segs, look, plain, value_look, n)) + behind_value(segs[n - 1])
            == style::plain_text(before) + text::joined(segs.take(n), "|"@),
    decreases n,
{
    let seg: Seq<char> = segs[n - 1];
    let t: Seq<char> = style::plain_text(before);
    let middle: Seq<char> = if label_value(seg).1.len() == 0 {
        Seq::empty()
    } else {
        gap(seg) + label_value(seg).1
    };
    parts_make_whole(seg);
    if n == 1 {
        let start: Seq<Piece> = styles::with_rest(before, before_name(seg), plain);
        styles::rest_keeps_text(before, before_name(seg), plain);
        segment_keeps_text(start, seg, look, plain, value_look);
        assert(segs.take(1) =~= seq![seg]);
        assert(t + before_name(seg) + name(seg) + middle + behind_value(seg) =~= t + (
        before_name(seg) + name(seg) + middle + behind_value(seg)));
    } else {
        let prev: Seq<Piece> = pieces_upto(before, segs, look, plain, value_look, n - 1);
        let last: Seq<char> = behind_value(segs[n - 2]);
        let bar: Piece = style::piece(last + "|"@ + before_name(seg), look);
        segments_keep_text(before, segs, look, plain, value_look, n - 1);
        style::plain_text_push(prev, bar);
        segment_keeps_text(prev.push(bar), seg, look, plain, value_look);
        let done: Seq<char> = text::joined(segs.take(n - 1), "|"@);
        assert(segs.take(n).drop_last() =~= segs.take(n - 1));
        assert(segs.take(n).last() == seg);
        regrouped(
            style::plain_text(prev),
            last,
            "|"@,
            before_name(seg),
            name(seg),
            middle,
            behind_value(seg),
        );
        assert((t + done) + "|"@ + seg =~= t + (done + "|"@ + seg));
    }
}

/// Drawing segments keeps their text.
pub proof fn pieces_keep_text(before: Seq<Piece>, s: Seq<char>, look: Style, plain: Style, value_look: spec_fn(Seq<char>, Seq<char>) -> Style)
    ensures
        style::plain_text(pieces(before, s, look, plain, value_look)) == style::plain_text(before) + s,
{
    reveal_strlit("|");
    let segs: Seq<Seq<char>> = text::split_at_char(s, '|');
    let n: int = segs.len() as int;
    text::split_joins(s, '|');
    assert("|"@ =~= seq!['|']);
    segments_keep_text(before, segs, look, plain, value_look, n);
    assert(segs.take(n) =~= segs);
    styles::rest_keeps_text(
        pieces_upto(before, segs, look, plain, value_look, n),
        behind_value(segs.last()),
        plain,
    );
}

} // verus!
