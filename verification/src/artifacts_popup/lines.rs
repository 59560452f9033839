//! The kinds of lines that the popup is made of.

use vstd::prelude::*;

use crate::artifacts_popup::json;
use crate::artifacts_popup::math;
use crate::artifacts_popup::spans;
use crate::columns;
use crate::style;
use crate::style::Color;
use crate::style::Line;
use crate::style::Piece;
use crate::style::Span;
use crate::style::Style;
use crate::style::Theme;
use crate::text;
use crate::wrap;

verus! {

/// How the text behind the prefix of a line is coloured.
#[derive(Clone, Copy)]
pub enum Fill {
    /// Marked-up text.
    Marked(Style),
    /// A formula.
    Formula(Style),
    /// JSON.
    Json(Style),
    /// In one style.
    Plain(Style),
}

/// A text as it is filled in.
pub open spec fn filled(fill: Fill, s: Seq<char>, theme: Theme) -> Seq<Piece> {
    match fill {
        Fill::Marked(base) => spans::text_pieces(s, base, theme),
        Fill::Formula(base) => math::math_pieces(s, base, theme),
        Fill::Json(base) => json::json_pieces(s, base, theme),
        Fill::Plain(base) => seq![style::piece(s, base)],
    }
}

fn fill_spans(fill: Fill, s: &str, theme: &Theme) -> (r: Vec<Span>)
    ensures
        style::pieces(r@) == filled(fill, s@, *theme),
{
    match fill {
        Fill::Marked(base) => spans::styled_text_spans(s, base, theme),
        Fill::Formula(base) => math::styled_math_spans(s, base, theme),
        Fill::Json(base) => json::styled_json_spans(s, base, theme),
        Fill::Plain(base) => {
            let r: Vec<Span> = vec![style::span(s, base)];
            assert(style::pieces(r@) =~= seq![style::piece(s@, base)]);
            r
        },
    }
}

/// Lines with one prefix before the first and another one before the others.
pub open spec fn prefixed(
    segs: Seq<Seq<char>>,
    first: Piece,
    other: Piece,
    fill: Fill,
    theme: Theme,
) -> Seq<Seq<Piece>> {
    Seq::new(
        segs.len(),
        |i: int|
            seq![
                if i == 0 {
                    first
                } else {
                    other
                },
            ] + filled(fill, segs[i], theme),
    )
}

fn joined_line(prefix: Span, rest: Vec<Span>) -> (r: Line)
    ensures
        r@ == seq![prefix@] + style::pieces(rest@),
{
    let ghost first: Piece = prefix@;
    let ghost behind: Seq<Piece> = style::pieces(rest@);
    let mut out: Vec<Span> = vec![prefix];
    let mut more: Vec<Span> = rest;
    out.append(&mut more);
    let r: Line = Line { spans: out };
    assert(r@ =~= seq![first] + behind);
    r
}

pub fn push_prefixed(
    out: &mut Vec<Line>,
    segs: &Vec<String>,
    first: &str,
    first_style: Style,
    other: &str,
    other_style: Style,
    fill: Fill,
    theme: &Theme,
)
    ensures
        style::rows(final(out)@) == style::rows(old(out)@) + prefixed(
            text::texts(segs@),
            style::piece(first@, first_style),
            style::piece(other@, other_style),
            fill,
            *theme,
        ),
{
    let ghost before: Seq<Seq<Piece>> = style::rows(out@);
    let ghost all: Seq<Seq<Piece>> = prefixed(
        text::texts(segs@),
        style::piece(first@, first_style),
        style::piece(other@, other_style),
        fill,
        *theme,
    );
    let mut i: usize = 0;
    assert(before + all.take(0) =~= before);
    while i < segs.len()
        invariant
            i <= segs@.len(),
            all == prefixed(
                text::texts(segs@),
                style::piece(first@, first_style),
                style::piece(other@, other_style),
                fill,
                *theme,
            ),
            style::rows(out@) == before + all.take(i as int),
        decreases segs@.len() - i,
    {
        assert(text::texts(segs@)[i as int] == segs@[i as int]@);
        let prefix: Span = if i == 0 {
            style::span(first, first_style)
        } else {
            style::span(other, other_style)
        };
        let rest: Vec<Span> = fill_spans(fill, segs[i].as_str(), theme);
        style::push_line(out, joined_line(prefix, rest));
        i += 1;
        assert(before + all.take(i as int) =~= before + all.take(i - 1) + seq![all[i - 1]]);
    }
    assert(all.take(i as int) =~= all);
}

/// How much room is left behind a prefix, and never less than eight columns.
pub open spec fn room(prefix: Seq<char>, width: int) -> int {
    text::max_int(text::monus(width, columns::text_columns(prefix) as int), 8)
}

pub fn room_behind(prefix: &str, width: usize) -> (r: usize)
    ensures
        r == room(prefix@, width as int),
{
    text::max_of(text::minus(width, columns::text_width(prefix)), 8)
}

/// Spaces as wide as a prefix.
pub open spec fn indent(prefix: Seq<char>) -> Seq<char> {
    text::fill(' ', columns::text_columns(prefix) as nat)
}

pub fn indent_like(prefix: &str) -> (r: String)
    ensures
        r@ == indent(prefix@),
{
    text::filled(' ', columns::text_width(prefix))
}

/// A dim style for labels and rules.
#[verifier::allow_in_spec]
pub fn label_style(theme: Theme) -> Style
    returns
        Style::plain().fg(theme.border).dim(),
{
    Style::plain().fg(theme.border).dim()
}

/// The style of titles.
#[verifier::allow_in_spec]
pub fn title_style(theme: Theme) -> Style
    returns
        Style::plain().fg(theme.title_focused).bold(),
{
    Style::plain().fg(theme.title_focused).bold()
}

pub open spec fn title(s: Seq<char>, theme: Theme) -> Seq<Piece> {
    seq![style::piece(" "@ + s, title_style(theme))]
}

pub fn popup_title_line(s: &str, theme: &Theme) -> (r: Line)
    ensures
        r@ == title(s@, *theme),
{
    style::single(text::cat2(" ", s), title_style(*theme))
}

pub open spec fn rule(width: int, theme: Theme) -> Seq<Piece> {
    seq![style::piece(text::fill('─', text::min_int(width, 240) as nat), label_style(theme))]
}

pub fn popup_rule_line(width: usize, theme: &Theme) -> (r: Line)
    ensures
        r@ == rule(width as int, *theme),
{
    style::single(text::filled('─', text::min_of(width, 240)), label_style(*theme))
}

pub open spec fn section(s: Seq<char>, theme: Theme) -> Seq<Piece> {
    seq![style::piece(s, title_style(theme))]
}

pub fn popup_section_line(s: &str, theme: &Theme) -> (r: Line)
    ensures
        r@ == section(s@, *theme),
{
    style::single(text::copy(s), title_style(*theme))
}

pub open spec fn note(s: Seq<char>, color: Color, theme: Theme) -> Seq<Piece> {
    seq![
        style::piece(
            s,
            Style::plain().fg(color).bg(style::dimmed(theme.border, theme.background, 88)),
        ),
    ]
}

pub fn popup_note_line(s: &str, color: Color, theme: &Theme) -> (r: Line)
    ensures
        r@ == note(s@, color, *theme),
{
    style::single(
        text::copy(s),
        Style::plain().fg(color).bg(style::dim_bg_towards(theme.border, theme.background, 88)),
    )
}

pub open spec fn key_value(label: Seq<char>, value: Seq<char>, theme: Theme) -> Seq<Piece> {
    seq![
        style::piece(" "@ + label + " "@, label_style(theme)),
        style::piece(value, Style::plain().fg(theme.foreground)),
    ]
}

pub fn kv_line(label: &str, value: &str, theme: &Theme) -> (r: Line)
    ensures
        r@ == key_value(label@, value@, *theme),
{
    let spans: Vec<Span> = vec![
        style::styled(text::cat3(" ", label, " "), label_style(*theme)),
        style::span(value, Style::plain().fg(theme.foreground)),
    ];
    let r: Line = Line { spans };
    assert(r@ =~= key_value(label@, value@, *theme));
    r
}

/// A value wrapped behind its label.
#[verifier::opaque]
pub open spec fn detail(label: Seq<char>, value: Seq<char>, theme: Theme, width: int) -> Seq<
    Seq<Piece>,
> {
    let prefix: Seq<char> = " "@ + label + ": "@;
    prefixed(
        wrap::visual_lines(value, room(prefix, width)),
        style::piece(prefix, label_style(theme)),
        style::piece(indent(prefix), label_style(theme)),
        Fill::Marked(Style::plain().fg(theme.foreground)),
        theme,
    )
}

pub fn push_wrapped_detail_lines(
    out: &mut Vec<Line>,
    label: &str,
    value: &str,
    theme: &Theme,
    width: usize,
)
    ensures
        style::rows(final(out)@) == style::rows(old(out)@) + detail(
            label@,
            value@,
            *theme,
            width as int,
        ),
{
    reveal(detail);
    let prefix: String = text::cat3(" ", label, ": ");
    let segs: Vec<String> = wrap::wrap_visual_line(value, room_behind(prefix.as_str(), width));
    let space: String = indent_like(prefix.as_str());
    push_prefixed(
        out,
        &segs,
        prefix.as_str(),
        label_style(*theme),
        space.as_str(),
        label_style(*theme),
        Fill::Marked(Style::plain().fg(theme.foreground)),
        theme,
    );
}

/// A text wrapped behind a marker.
#[verifier::opaque]
pub open spec fn item(prefix: Seq<char>, value: Seq<char>, theme: Theme, width: int) -> Seq<
    Seq<Piece>,
> {
    prefixed(
        wrap::visual_lines(value, room(prefix, width)),
        style::piece(prefix, Style::plain().fg(theme.accent).bold()),
        style::piece(indent(prefix), Style::plain()),
        Fill::Marked(Style::plain().fg(theme.foreground)),
        theme,
    )
}

pub fn push_item(out: &mut Vec<Line>, prefix: &str, value: &str, theme: &Theme, width: usize)
    ensures
        style::rows(final(out)@) == style::rows(old(out)@) + item(
            prefix@,
            value@,
            *theme,
            width as int,
        ),
{
    reveal(item);
    let segs: Vec<String> = wrap::wrap_visual_line(value, room_behind(prefix, width));
    let space: String = indent_like(prefix);
    push_prefixed(
        out,
        &segs,
        prefix,
        Style::plain().fg(theme.accent).bold(),
        space.as_str(),
        Style::plain(),
        Fill::Marked(Style::plain().fg(theme.foreground)),
        theme,
    );
}

pub fn push_wrapped_bullet(out: &mut Vec<Line>, value: &str, theme: &Theme, width: usize)
    ensures
        style::rows(final(out)@) == style::rows(old(out)@) + item(
            " • "@,
            value@,
            *theme,
            width as int,
        ),
{
    push_item(out, " • ", value, theme, width);
}

/// A detail, where there is something to say.
pub open spec fn detail_if_any(label: Seq<char>, value: Option<String>, theme: Theme, width: int) -> Seq<
    Seq<Piece>,
> {
    match value {
        Some(v) => if text::trimmed(v@).len() > 0 {
            detail(label, v@, theme, width)
        } else {
            Seq::empty()
        },
        None => Seq::empty(),
    }
}

pub fn push_detail_if_any(
    out: &mut Vec<Line>,
    label: &str,
    value: &Option<String>,
    theme: &Theme,
    width: usize,
)
    ensures
        style::rows(final(out)@) == style::rows(old(out)@) + detail_if_any(
            label@,
            *value,
            *theme,
            width as int,
        ),
{
    broadcast use style::group_line_lists;

    if let Some(v) = value {
        if !text::is_blank(v.as_str()) {
            push_wrapped_detail_lines(out, label, v.as_str(), theme, width);
        }
    }
}

/// A detail that lists texts, where there are any.
pub open spec fn list_if_any(label: Seq<char>, values: Seq<Seq<char>>, theme: Theme, width: int) -> Seq<
    Seq<Piece>,
> {
    if values.len() > 0 {
        detail(label, text::joined(values, ", "@), theme, width)
    } else {
        Seq::empty()
    }
}

pub fn push_list_if_any(
    out: &mut Vec<Line>,
    label: &str,
    values: &Vec<String>,
    theme: &Theme,
    width: usize,
)
    ensures
        style::rows(final(out)@) == style::rows(old(out)@) + list_if_any(
            label@,
            text::texts(values@),
            *theme,
            width as int,
        ),
{
    broadcast use style::group_line_lists;

    assert(text::texts(values@).len() == values@.len());
    if values.len() > 0 {
        let all: String = text::join(values, ", ");
        push_wrapped_detail_lines(out, label, all.as_str(), theme, width);
    }
}

/// The first `n` texts behind bullets.
pub open spec fn bullets(values: Seq<Seq<char>>, theme: Theme, width: int, n: int) -> Seq<Seq<Piece>>
    decreases n,
{
    if n <= 0 {
        Seq::empty()
    } else {
        bullets(values, theme, width, n - 1) + item(" • "@, values[n - 1], theme, width)
    }
}

pub fn push_bullets(out: &mut Vec<Line>, values: &Vec<String>, theme: &Theme, width: usize)
    ensures
        style::rows(final(out)@) == style::rows(old(out)@) + bullets(
            text::texts(values@),
            *theme,
            width as int,
            values@.len() as int,
        ),
{
    broadcast use style::group_line_lists;

    let ghost before: Seq<Seq<Piece>> = style::rows(out@);
    let mut i: usize = 0;
    while i < values.len()
        invariant
            i <= values@.len(),
            style::rows(out@) == before + bullets(
                text::texts(values@),
                *theme,
                width as int,
                i as int,
            ),
        decreases values@.len() - i,
    {
        broadcast use style::group_line_lists;

        assert(text::texts(values@)[i as int] == values@[i as int]@);
        push_wrapped_bullet(out, values[i].as_str(), theme, width);
        i += 1;
    }
}

} // verus!
