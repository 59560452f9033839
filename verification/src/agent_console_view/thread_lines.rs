//! The rows of the transcript in colour.

use vstd::prelude::*;

use crate::agent_console_view::highlights;
use crate::agent_console_view::rows;
use crate::agent_console_view::rows::Row;
use crate::agent_console_view::rows::ThreadRow;
use crate::agent_console_view::rows::ThreadRowKind;
use crate::agent_console_view::stages;
use crate::agent_console_view::words;
use crate::style;
use crate::style::Color;
use crate::style::Line;
use crate::style::Piece;
use crate::style::Span;
use crate::style::Style;
use crate::style::Theme;
use crate::text;

verus! {

/// The background of a prompt.
pub open spec fn prompt_bg(theme: Theme) -> Color {
    style::dimmed(theme.cursor_line_bg, theme.background, 80)
}

pub fn user_prompt_bg(theme: &Theme) -> (r: Color)
    ensures
        r == prompt_bg(*theme),
{
    style::dim_bg_towards(theme.cursor_line_bg, theme.background, 80)
}

/// The background of the table of agents at work.
pub open spec fn table_bg(theme: Theme) -> Color {
    style::dimmed(theme.border, theme.background, 85)
}

fn status_bg(theme: &Theme) -> (r: Color)
    ensures
        r == table_bg(*theme),
{
    style::dim_bg_towards(theme.border, theme.background, 85)
}

/// The first word of a text and the rest behind the space.
pub open spec fn first_word(s: Seq<char>) -> (Seq<char>, Seq<char>) {
    let parts: Seq<Seq<char>> = text::split_few(s, ' ', 2);
    (text::part(parts, 0), text::part(parts, 1))
}

fn split_first_word(s: &str) -> (r: (String, String))
    ensures
        (r.0@, r.1@) == first_word(s@),
{
    let parts: Vec<String> = text::splitn(s, ' ', 2);
    (text::part_of(&parts, 0), text::part_of(&parts, 1))
}

/// The line on what the agents do: the heartbeat stands out.
pub open spec fn breather(s: Seq<char>, theme: Theme) -> Seq<Piece> {
    let (beat, rest) = first_word(s);
    seq![
        style::piece(beat, Style::plain().fg(theme.accent).bold()),
        style::piece(
            if rest.len() == 0 {
                Seq::empty()
            } else {
                " "@ + rest
            },
            Style::plain().fg(theme.foreground),
        ),
    ]
}

pub fn breather_line(s: &str, theme: &Theme) -> (r: Line)
    ensures
        r@ == breather(s@, *theme),
{
    let (beat, rest): (String, String) = split_first_word(s);
    let behind: String = if text::length(rest.as_str()) == 0 {
        rest
    } else {
        text::cat2(" ", rest.as_str())
    };
    let spans: Vec<Span> = vec![
        style::styled(beat, Style::plain().fg(theme.accent).bold()),
        style::styled(behind, Style::plain().fg(theme.foreground)),
    ];
    let r: Line = Line { spans };
    assert(behind@.len() == 0 ==> behind@ =~= Seq::<char>::empty());
    assert(r@ =~= breather(s@, *theme));
    r
}

/// Spaces before the first other character.
pub open spec fn lead(s: Seq<char>) -> int {
    s.len() - text::without_leading(s, ' ').len()
}

proof fn lead_is_in_text(s: Seq<char>)
    ensures
        0 <= lead(s) <= s.len(),
    decreases s.len(),
{
    if s.len() > 0 && s[0] == ' ' {
        lead_is_in_text(s.subrange(1, s.len() as int));
    }
}

fn split_lead(s: &str) -> (r: (usize, String))
    ensures
        r.0 == lead(s@),
        r.1@ == text::without_leading(s@, ' '),
{
    let rest: String = text::trim_leading(s, ' ');
    proof {
        lead_is_in_text(s@);
    }
    let total: usize = text::length(s);
    let left: usize = text::length(rest.as_str());
    (total - left, rest)
}

/// Spaces in a style; nothing where there are none.
pub open spec fn spaces(n: int, look: Style) -> Seq<Piece> {
    if n > 0 {
        seq![style::piece(text::fill(' ', n as nat), look)]
    } else {
        Seq::empty()
    }
}

fn push_spaces(spans: &mut Vec<Span>, n: usize, look: Style)
    ensures
        style::pieces(final(spans)@) == style::pieces(old(spans)@) + spaces(n as int, look),
{
    broadcast use {style::group_lines, style::group_piece_lists};

    if n > 0 {
        spans.push(style::styled(text::filled(' ', n), look));
    }
}

/// Where the first pair of brackets stands.
pub open spec fn brackets(s: Seq<char>) -> Option<(int, int)> {
    match text::position(s, '[') {
        Some(a) => match text::position(text::tail(s, a), ']') {
            Some(b) => Some((a, a + b + 1)),
            None => None,
        },
        None => None,
    }
}

fn find_brackets(s: &str) -> (r: Option<(usize, usize)>)
    ensures
        match r {
            Some(p) => brackets(s@) == Some((p.0 as int, p.1 as int)) && p.0 < p.1 <= s@.len(),
            None => brackets(s@) is None,
        },
{
    match text::find_char(s, '[') {
        Some(a) => {
            let rest: String = text::tail_of(s, a);
            match text::find_char(rest.as_str(), ']') {
                Some(b) => Some((a, a + b + 1)),
                None => None,
            }
        },
        None => None,
    }
}

/// What an agent says behind its heartbeat: its badge stands out.
pub open spec fn badged(s: Seq<char>, theme: Theme) -> Seq<Piece> {
    let base: Style = Style::plain().fg(theme.title);
    match brackets(s) {
        Some(p) => highlights::inline_pieces(s.subrange(0, p.0), base, theme) + seq![
            style::piece(s.subrange(p.0, p.1), Style::plain().fg(theme.warning).bold()),
        ] + highlights::inline_pieces(s.subrange(p.1, s.len() as int), base, theme),
        None => highlights::inline_pieces(s, base, theme),
    }
}

fn push_badged(spans: &mut Vec<Span>, s: &str, theme: &Theme)
    ensures
        style::pieces(final(spans)@) == style::pieces(old(spans)@) + badged(s@, *theme),
{
    broadcast use {style::group_lines, style::group_piece_lists};

    let base: Style = Style::plain().fg(theme.title);
    match find_brackets(s) {
        Some(p) => {
            let v: Vec<char> = text::chars_of(s);
            let before: String = text::text_range(&v, 0, p.0);
            let inside: String = text::text_range(&v, p.0, p.1);
            let after: String = text::text_range(&v, p.1, v.len());
            highlights::push_agent_text_with_inline_highlights(spans, before.as_str(), base, theme);
            spans.push(style::styled(inside, Style::plain().fg(theme.warning).bold()));
            highlights::push_agent_text_with_inline_highlights(spans, after.as_str(), base, theme);
        },
        None => highlights::push_agent_text_with_inline_highlights(spans, s, base, theme),
    }
}

/// A line of what an agent says.
pub open spec fn agent_pieces(s: Seq<char>, theme: Theme) -> Seq<Piece> {
    let base: Style = Style::plain().fg(theme.title);
    let body: Seq<char> = text::without_leading(s, ' ');
    let (first, rest) = first_word(body);
    spaces(lead(s), base) + (if words::ecg(first) {
        seq![style::piece(first, Style::plain().fg(theme.accent).bold())] + (if rest.len() == 0 {
            Seq::empty()
        } else {
            badged(" "@ + rest, theme)
        })
    } else if first.len() > 0 && first[0] == '[' && first.last() == ']' {
        seq![style::piece(first, Style::plain().fg(theme.warning).bold())] + (if rest.len() == 0 {
            Seq::empty()
        } else {
            highlights::inline_pieces(" "@ + rest, base, theme)
        })
    } else {
        highlights::inline_pieces(body, base, theme)
    })
}

pub fn agent_line_with_accent_ecg(s: &str, theme: &Theme) -> (r: Line)
    ensures
        r@ == agent_pieces(s@, *theme),
{
    broadcast use {style::group_lines, style::group_piece_lists};

    let base: Style = Style::plain().fg(theme.title);
    let mut spans: Vec<Span> = Vec::new();
    assert(style::pieces(spans@) =~= Seq::<Piece>::empty());
    let (indent, body): (usize, String) = split_lead(s);
    push_spaces(&mut spans, indent, base);
    assert(style::pieces(spans@) =~= spaces(lead(s@), base));
    let (first, rest): (String, String) = split_first_word(body.as_str());
    let behind: String = text::cat2(" ", rest.as_str());
    let more: bool = text::length(rest.as_str()) > 0;
    let v: Vec<char> = text::chars_of(first.as_str());
    let n: usize = v.len();
    if words::looks_like_ecg(first.as_str()) {
        spans.push(style::styled(first, Style::plain().fg(theme.accent).bold()));
        if more {
            push_badged(&mut spans, behind.as_str(), theme);
        }
    } else if n > 0 && v[0] == '[' && v[n - 1] == ']' {
        spans.push(style::styled(first, Style::plain().fg(theme.warning).bold()));
        if more {
            highlights::push_agent_text_with_inline_highlights(
                &mut spans,
                behind.as_str(),
                base,
                theme,
            );
        }
    } else {
        highlights::push_agent_text_with_inline_highlights(&mut spans, body.as_str(), base, theme);
    }
    Line { spans }
}

/// A line that links to an artifact.
pub open spec fn link_pieces(s: Seq<char>, theme: Theme) -> Seq<Piece> {
    let body: Seq<char> = text::without_leading(s, ' ');
    let look: Style = Style::plain().fg(theme.foreground).bg(prompt_bg(theme)).bold();
    spaces(lead(s), look) + (match text::find(body, "ARTIFACTS"@) {
        Some(k) => style::if_any(body.subrange(0, k), look) + seq![
            style::piece(
                "ARTIFACTS"@,
                Style::plain().fg(theme.background).bg(theme.title_focused).bold(),
            ),
        ] + style::if_any(body.subrange(k + 9, body.len() as int), look),
        None => seq![style::piece(body, look)],
    })
}

pub fn artifact_link_line(s: &str, theme: &Theme) -> (r: Line)
    ensures
        r@ == link_pieces(s@, *theme),
{
    broadcast use {style::group_lines, style::group_piece_lists};

    proof {
        reveal_strlit("ARTIFACTS");
    }
    let look: Style = Style::plain().fg(theme.foreground).bg(user_prompt_bg(theme)).bold();
    let mut spans: Vec<Span> = Vec::new();
    assert(style::pieces(spans@) =~= Seq::<Piece>::empty());
    let (indent, body): (usize, String) = split_lead(s);
    push_spaces(&mut spans, indent, look);
    assert(style::pieces(spans@) =~= spaces(lead(s@), look));
    match text::find_text(body.as_str(), "ARTIFACTS") {
        Some(k) => {
            let v: Vec<char> = text::chars_of(body.as_str());
            style::push_if_any(&mut spans, text::text_range(&v, 0, k), look);
            spans.push(
                style::span(
                    "ARTIFACTS",
                    Style::plain().fg(theme.background).bg(theme.title_focused).bold(),
                ),
            );
            style::push_if_any(&mut spans, text::text_range(&v, k + 9, v.len()), look);
        },
        None => {
            spans.push(style::styled(body, look));
        },
    }
    Line { spans }
}

/// A line of a prompt.
pub open spec fn prompt_pieces(s: Seq<char>, theme: Theme) -> Seq<Piece> {
    let base: Style = Style::plain().fg(Color::Gray).bg(prompt_bg(theme));
    if s.len() == 0 {
        seq![style::piece(Seq::empty(), Style::plain())]
    } else if text::trimmed(s) != "You"@ {
        seq![style::piece(s, base)]
    } else {
        spaces(lead(s), base) + seq![style::piece("You"@, base.bold())] + spaces(
            text::monus(text::monus(s.len() as int, lead(s)), 3),
            base,
        )
    }
}

pub fn user_line_with_prompt_bg(s: &str, theme: &Theme) -> (r: Line)
    ensures
        r@ == prompt_pieces(s@, *theme),
{
    broadcast use {style::group_lines, style::group_piece_lists};

    let base: Style = Style::plain().fg(Color::Gray).bg(user_prompt_bg(theme));
    let total: usize = text::length(s);
    if total == 0 {
        let none: String = String::new();
        assert(none@ =~= Seq::<char>::empty());
        return style::unstyled(none);
    }
    let bare: String = text::trim(s);
    if !text::str_eq(bare.as_str(), "You") {
        return style::single(text::copy(s), base);
    }
    let mut spans: Vec<Span> = Vec::new();
    assert(style::pieces(spans@) =~= Seq::<Piece>::empty());
    let (indent, _rest): (usize, String) = split_lead(s);
    push_spaces(&mut spans, indent, base);
    assert(style::pieces(spans@) =~= spaces(lead(s@), base));
    spans.push(style::span("You", base.bold()));
    push_spaces(&mut spans, text::minus(text::minus(total, indent), 3), base);
    Line { spans }
}

/// A header of the table of agents at work.
pub fn status_header_line(s: &str, theme: &Theme) -> (r: Line)
    ensures
        r@ == seq![
            style::piece(s@, Style::plain().fg(theme.border).bg(table_bg(*theme)).dim()),
        ],
{
    style::single(text::copy(s), Style::plain().fg(theme.border).bg(status_bg(theme)).dim())
}

/// A row of the table of agents at work.
pub open spec fn status_row(s: Seq<char>, theme: Theme) -> Seq<Piece> {
    let base: Style = Style::plain().bg(table_bg(theme));
    seq![
        style::piece(
            s,
            if text::trimmed(s).len() == 0 {
                base
            } else {
                base.fg(theme.foreground)
            },
        ),
    ]
}

pub fn status_row_line(s: &str, theme: &Theme) -> (r: Line)
    ensures
        r@ == status_row(s@, *theme),
{
    let base: Style = Style::plain().bg(status_bg(theme));
    style::single(
        text::copy(s),
        if text::is_blank(s) {
            base
        } else {
            base.fg(theme.foreground)
        },
    )
}

/// What stands before the first character that is no white space. White space is counted in
/// bytes.
pub open spec fn indent(s: Seq<char>) -> Seq<char> {
    text::head(s, text::counted_bytes(s) - text::counted_bytes(text::trimmed_start(s)))
}

fn indent_of(s: &str) -> (r: String)
    ensures
        r@ == indent(s@),
{
    let bare: String = text::trim_start(s);
    text::head_of(s, text::minus(text::length_in_bytes(s), text::length_in_bytes(bare.as_str())))
}

/// The colour of a grade.
pub open spec fn grade_color(s: Seq<char>, theme: Theme) -> Color {
    if text::includes(s, "Failing"@) {
        theme.error
    } else if text::includes(s, "Minimum"@) {
        theme.warning
    } else if text::includes(s, "Standard"@) {
        theme.foreground
    } else if text::includes(s, "Excellent"@) {
        theme.title_focused
    } else if text::includes(s, "Exceptional"@) {
        theme.success
    } else {
        theme.foreground
    }
}

fn color_of_grade(s: &str, theme: &Theme) -> (r: Color)
    ensures
        r == grade_color(s@, *theme),
{
    if text::contains(s, "Failing") {
        theme.error
    } else if text::contains(s, "Minimum") {
        theme.warning
    } else if text::contains(s, "Standard") {
        theme.foreground
    } else if text::contains(s, "Excellent") {
        theme.title_focused
    } else if text::contains(s, "Exceptional") {
        theme.success
    } else {
        theme.foreground
    }
}

/// The colour of a mark of change.
pub open spec fn mark_color(c: char, theme: Theme) -> Color {
    if c == '↑' {
        theme.success
    } else if c == '↓' {
        theme.error
    } else if c == '+' {
        theme.title_focused
    } else {
        theme.border
    }
}

/// A row on one file of a retry: a mark of change, then the rest by its grade.
pub open spec fn marked_pieces(s: Seq<char>, trimmed: Seq<char>, theme: Theme) -> Seq<Piece> {
    let bg: Color = table_bg(theme);
    let rest: Seq<char> = text::trimmed_start(text::tail(trimmed, 1));
    seq![
        style::piece(
            indent(s) + text::head(trimmed, 1) + " "@,
            Style::plain().fg(mark_color(trimmed[0], theme)).bg(bg),
        ),
        style::piece(rest, Style::plain().fg(grade_color(rest, theme)).bg(bg)),
    ]
}

fn marked_line(s: &str, trimmed: &str, theme: &Theme) -> (r: Line)
    requires
        trimmed@.len() > 0,
    ensures
        r@ == marked_pieces(s@, trimmed@, *theme),
{
    let bg: Color = status_bg(theme);
    let v: Vec<char> = text::chars_of(trimmed);
    let mark: String = text::head_of(trimmed, 1);
    let behind: String = text::tail_of(trimmed, 1);
    let rest: String = text::trim_start(behind.as_str());
    let before: String = indent_of(s);
    let color: Color = match v[0] {
        '↑' => theme.success,
        '↓' => theme.error,
        '+' => theme.title_focused,
        _ => theme.border,
    };
    let grade: Color = color_of_grade(rest.as_str(), theme);
    let spans: Vec<Span> = vec![
        style::styled(
            text::cat3(before.as_str(), mark.as_str(), " "),
            Style::plain().fg(color).bg(bg),
        ),
        style::styled(rest, Style::plain().fg(grade).bg(bg)),
    ];
    let r: Line = Line { spans };
    assert(r@ =~= marked_pieces(s@, trimmed@, *theme));
    r
}

/// The colour of a file by how it has changed.
pub open spec fn change_color(s: Seq<char>, theme: Theme) -> Color {
    if text::includes(s, "improved"@) {
        theme.accent
    } else if text::includes(s, "degraded"@) {
        theme.error
    } else if text::includes(s, "new"@) {
        theme.title
    } else {
        theme.foreground
    }
}

fn color_of_change(s: &str, theme: &Theme) -> (r: Color)
    ensures
        r == change_color(s@, *theme),
{
    if text::contains(s, "improved") {
        theme.accent
    } else if text::contains(s, "degraded") {
        theme.error
    } else if text::contains(s, "new") {
        theme.title
    } else {
        theme.foreground
    }
}

/// A row on one file that was graded.
pub open spec fn graded_pieces(s: Seq<char>, rest: Seq<char>, at: int, theme: Theme) -> Seq<Piece> {
    let bg: Color = table_bg(theme);
    let dim: Style = Style::plain().fg(theme.title).bg(bg).dim();
    let behind: Seq<char> = text::tail(rest, at);
    seq![
        style::piece(indent(s) + "↳ "@, dim),
        style::piece(
            text::head(rest, at),
            Style::plain().fg(change_color(behind, theme)).bg(bg),
        ),
        style::piece(behind, dim),
    ]
}

fn graded_line(s: &str, rest: &str, at: usize, theme: &Theme) -> (r: Line)
    ensures
        r@ == graded_pieces(s@, rest@, at as int, *theme),
{
    let bg: Color = status_bg(theme);
    let dim: Style = Style::plain().fg(theme.title).bg(bg).dim();
    let behind: String = text::tail_of(rest, at);
    let before: String = indent_of(s);
    let color: Color = color_of_change(behind.as_str(), theme);
    let spans: Vec<Span> = vec![
        style::styled(text::cat2(before.as_str(), "↳ "), dim),
        style::styled(text::head_of(rest, at), Style::plain().fg(color).bg(bg)),
        style::styled(behind, dim),
    ];
    let r: Line = Line { spans };
    assert(r@ =~= graded_pieces(s@, rest@, at as int, *theme));
    r
}

/// A row on the retry itself.
pub open spec fn retry_pieces(s: Seq<char>, rest: Seq<char>, theme: Theme) -> Seq<Piece> {
    let look: Style = Style::plain().fg(theme.warning).bg(table_bg(theme));
    seq![style::piece(indent(s) + "↳ "@, look), style::piece(rest, look.bold())]
}

fn retry_line(s: &str, rest: &str, theme: &Theme) -> (r: Line)
    ensures
        r@ == retry_pieces(s@, rest@, *theme),
{
    let look: Style = Style::plain().fg(theme.warning).bg(status_bg(theme));
    let before: String = indent_of(s);
    let spans: Vec<Span> = vec![
        style::styled(text::cat2(before.as_str(), "↳ "), look),
        style::span(rest, look.bold()),
    ];
    let r: Line = Line { spans };
    assert(r@ =~= retry_pieces(s@, rest@, *theme));
    r
}

/// Whether a row is on one file of a retry.
pub open spec fn is_marked(t: Seq<char>) -> bool {
    text::starts(t, "↓ "@) || text::starts(t, "↑ "@) || text::starts(t, "— "@) || text::starts(
        t,
        "+ "@,
    )
}

/// A row below a row of the table of agents at work.
pub open spec fn sub_row(s: Seq<char>, theme: Theme) -> Seq<Piece> {
    let t: Seq<char> = text::trimmed_start(s);
    let dim: Seq<Piece> = seq![
        style::piece(s, Style::plain().fg(theme.title).bg(table_bg(theme)).dim()),
    ];
    if text::starts(t, "Swarm"@) || text::starts(t, "Verify"@) || text::starts(t, "• "@) {
        dim
    } else {
        match text::after_prefix(t, "↳ "@) {
            Some(rest) => if text::starts(rest, "genome retry"@) {
                retry_pieces(s, rest, theme)
            } else if text::includes(rest, "(tier "@) {
                match text::position(rest, ' ') {
                    Some(at) => graded_pieces(s, rest, at, theme),
                    None => dim,
                }
            } else {
                dim
            },
            None => if is_marked(t) {
                marked_pieces(s, t, theme)
            } else {
                dim
            },
        }
    }
}

pub fn status_sub_row_line(s: &str, theme: &Theme) -> (r: Line)
    ensures
        r@ == sub_row(s@, *theme),
{
    proof {
        reveal_strlit("↓ ");
        reveal_strlit("↑ ");
        reveal_strlit("— ");
        reveal_strlit("+ ");
    }
    let bare: String = text::trim_start(s);
    let t: &str = bare.as_str();
    if text::starts_with(t, "Swarm") || text::starts_with(t, "Verify") || text::starts_with(t, "• ") {
    } else if let Some(rest) = text::strip_prefix(t, "↳ ") {
        if text::starts_with(rest.as_str(), "genome retry") {
            return retry_line(s, rest.as_str(), theme);
        }
        if text::contains(rest.as_str(), "(tier ") {
            if let Some(at) = text::find_char(rest.as_str(), ' ') {
                return graded_line(s, rest.as_str(), at, theme);
            }
        }
    } else if text::starts_with(t, "↓ ") || text::starts_with(t, "↑ ") || text::starts_with(t, "— ")
        || text::starts_with(t, "+ ") {
        return marked_line(s, t, theme);
    }
    style::single(text::copy(s), Style::plain().fg(theme.title).bg(status_bg(theme)).dim())
}

/// A row in colour.
pub open spec fn row_pieces(row: Row, theme: Theme) -> Seq<Piece> {
    match row.kind {
        ThreadRowKind::User => prompt_pieces(row.text, theme),
        ThreadRowKind::Agent => agent_pieces(row.text, theme),
        ThreadRowKind::ArtifactLink => link_pieces(row.text, theme),
        ThreadRowKind::Breather => breather(row.text, theme),
        ThreadRowKind::StatusHeader => seq![
            style::piece(row.text, Style::plain().fg(theme.border).bg(table_bg(theme)).dim()),
        ],
        ThreadRowKind::StatusRow => status_row(row.text, theme),
        ThreadRowKind::StatusSubRow => sub_row(row.text, theme),
    }
}

fn row_line(row: &ThreadRow, theme: &Theme) -> (r: Line)
    ensures
        r@ == row_pieces(row@, *theme),
{
    let s: &str = row.text.as_str();
    match row.kind {
        ThreadRowKind::User => user_line_with_prompt_bg(s, theme),
        ThreadRowKind::Agent => agent_line_with_accent_ecg(s, theme),
        ThreadRowKind::ArtifactLink => artifact_link_line(s, theme),
        ThreadRowKind::Breather => breather_line(s, theme),
        ThreadRowKind::StatusHeader => status_header_line(s, theme),
        ThreadRowKind::StatusRow => status_row_line(s, theme),
        ThreadRowKind::StatusSubRow => status_sub_row_line(s, theme),
    }
}

/// `count` rows from `from` on in colour.
pub open spec fn lines(all: Seq<Row>, from: int, count: int, theme: Theme) -> Seq<Seq<Piece>> {
    Seq::new(count as nat, |i: int| row_pieces(all[from + i], theme))
}

pub fn thread_lines(all: &Vec<ThreadRow>, from: usize, count: usize, theme: &Theme) -> (r: Vec<Line>)
    requires
        from + count <= all@.len(),
    ensures
        style::rows(r@) == lines(rows::rows(all@), from as int, count as int, *theme),
{
    broadcast use style::group_lines;

    let ghost want: Seq<Seq<Piece>> = lines(rows::rows(all@), from as int, count as int, *theme);
    let total: usize = all.len();
    let mut out: Vec<Line> = Vec::new();
    let mut i: usize = 0;
    assert(style::rows(out@) =~= want.take(0));
    while i < count
        invariant
            i <= count,
            from + count <= total == all@.len(),
            want == lines(rows::rows(all@), from as int, count as int, *theme),
            style::rows(out@) == want.take(i as int),
        decreases count - i,
    {
        let line: Line = row_line(&all[from + i], theme);
        let ghost shown: Seq<Piece> = line@;
        assert(rows::rows(all@)[from + i] == all@[from + i]@);
        assert(want[i as int] == shown);
        out.push(line);
        i += 1;
        assert(want.take(i as int) =~= want.take(i - 1).push(shown));
    }
    assert(want.take(i as int) =~= want);
    out
}

/// Every heartbeat is told as one.
pub proof fn beats_are_told(k: int)
    requires
        0 <= k < 9,
    ensures
        words::ecg(stages::beats()[k]),
        words::ecg("▁▁▁▁▁▁"@),
{
    reveal_strlit("▁▁▁▁▁▁");
    reveal_strlit("▁▂▁▃▂▁");
    reveal_strlit("▁▃▅▂▁▂");
    reveal_strlit("▁▄▇▃▁▂");
    reveal_strlit("▁▅█▄▂▁");
    reveal_strlit("▁▄▆▃▁▂");
    reveal_strlit("▁▃▅▂▁▃");
    reveal_strlit("▁▂▄▂▁▂");
    reveal_strlit("▁▃▆▃▁▂");
    reveal_strlit("▁▂▅▂▁▂");
}

} // verus!
