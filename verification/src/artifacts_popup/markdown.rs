//! Marked-up documents.

use vstd::prelude::*;

use crate::agent_ops_view::mcp;
use crate::artifacts_popup::code;
use crate::artifacts_popup::code::SyntaxTables;
use crate::artifacts_popup::lines;
use crate::artifacts_popup::lines::Fill;
use crate::artifacts_popup::tables;
use crate::style;
use crate::style::Line;
use crate::style::Piece;
use crate::style::Span;
use crate::style::Style;
use crate::style::Theme;
use crate::text;
use crate::wrap;

verus! {

/// How many characters `c` a text starts with.
pub open spec fn leading(s: Seq<char>, c: char, i: int) -> int
    decreases s.len() - i,
{
    if 0 <= i < s.len() && s[i] == c {
        leading(s, c, i + 1)
    } else {
        i
    }
}

fn count_leading(s: &str, c: char) -> (r: usize)
    ensures
        r == leading(s@, c, 0),
        r <= s@.len(),
{
    let v: Vec<char> = text::chars_of(s);
    let total: usize = v.len();
    let mut i: usize = 0;
    while i < total && v[i] == c
        invariant
            i <= total == v@.len(),
            v@ == s@,
            leading(s@, c, 0) == leading(s@, c, i as int),
        decreases total - i,
    {
        i += 1;
    }
    i
}

/// Where the digits end that a text starts with.
pub open spec fn digits_end(s: Seq<char>, i: int) -> int
    decreases s.len() - i,
{
    if 0 <= i < s.len() && text::digit(s[i]) {
        digits_end(s, i + 1)
    } else {
        i
    }
}

fn find_digits_end(s: &str) -> (r: usize)
    ensures
        r == digits_end(s@, 0),
        r <= s@.len(),
{
    let v: Vec<char> = text::chars_of(s);
    let total: usize = v.len();
    let mut i: usize = 0;
    while i < total && text::is_digit(v[i])
        invariant
            i <= total == v@.len(),
            v@ == s@,
            digits_end(s@, 0) == digits_end(s@, i as int),
        decreases total - i,
    {
        i += 1;
    }
    i
}

/// The level and the text of a heading.
pub open spec fn heading(s: Seq<char>) -> Option<(int, Seq<char>)> {
    let hashes: int = leading(s, '#', 0);
    let rest: Seq<char> = text::trimmed(text::tail(s, hashes));
    if hashes == 0 || rest.len() == 0 {
        None
    } else {
        Some((hashes, rest))
    }
}

pub fn parse_markdown_heading(s: &str) -> (r: Option<(usize, String)>)
    ensures
        match r {
            Some(h) => heading(s@) == Some((h.0 as int, h.1@)),
            None => heading(s@) is None,
        },
{
    let hashes: usize = count_leading(s, '#');
    if hashes == 0 {
        return None;
    }
    let behind: String = text::tail_of(s, hashes);
    let rest: String = text::trim(behind.as_str());
    if text::length(rest.as_str()) == 0 {
        None
    } else {
        Some((hashes, rest))
    }
}

/// A text without `n` characters at each end.
pub open spec fn inner(s: Seq<char>, n: int) -> Seq<char> {
    text::head(text::tail(s, n), s.len() - 2 * n)
}

fn inner_of(s: &str, n: usize) -> (r: String)
    requires
        2 * n <= s@.len(),
    ensures
        r@ == inner(s@, n as int),
{
    let all: usize = text::length(s);
    let behind: String = text::tail_of(s, n);
    text::head_of(behind.as_str(), all - n - n)
}

/// The text of a line that is strong as a whole.
pub open spec fn strong(line: Seq<char>) -> Option<Seq<char>> {
    let s: Seq<char> = text::trimmed(line);
    let t: Seq<char> = text::trimmed(inner(s, 2));
    if !text::starts(s, "**"@) || !text::ends(s, "**"@) || s.len() < 4 || t.len() == 0
        || text::includes(t, "**"@) {
        None
    } else {
        Some(t)
    }
}

pub fn strong_only_heading_text(line: &str) -> (r: Option<String>)
    ensures
        text::opt_text(r) == strong(line@),
{
    let s: String = text::trim(line);
    if !text::starts_with(s.as_str(), "**") || !text::ends_with(s.as_str(), "**") || text::length(
        s.as_str(),
    ) < 4 {
        return None;
    }
    let middle: String = inner_of(s.as_str(), 2);
    let t: String = text::trim(middle.as_str());
    if text::length(t.as_str()) == 0 || text::contains(t.as_str(), "**") {
        return None;
    }
    Some(t)
}

/// The marker and the text of an item of a list.
pub open spec fn list_item(s: Seq<char>) -> Option<(Seq<char>, Seq<char>)> {
    if text::starts(s, "- "@) {
        Some(("-"@, text::trimmed_start(text::tail(s, 2))))
    } else if text::starts(s, "* "@) {
        Some(("*"@, text::trimmed_start(text::tail(s, 2))))
    } else if text::starts(s, "+ "@) {
        Some(("+"@, text::trimmed_start(text::tail(s, 2))))
    } else {
        let n: int = digits_end(s, 0);
        let rest: Seq<char> = text::trimmed_start(text::tail(s, n + 2));
        if n > 0 && text::starts(text::tail(s, n), ". "@) && rest.len() > 0 {
            Some((text::head(s, n + 1), rest))
        } else {
            None
        }
    }
}

pub fn parse_list_marker(s: &str) -> (r: Option<(String, String)>)
    ensures
        match r {
            Some(m) => list_item(s@) == Some((m.0@, m.1@)),
            None => list_item(s@) is None,
        },
{
    if text::starts_with(s, "- ") {
        let rest: String = text::tail_of(s, 2);
        return Some((text::copy("-"), text::trim_start(rest.as_str())));
    }
    if text::starts_with(s, "* ") {
        let rest: String = text::tail_of(s, 2);
        return Some((text::copy("*"), text::trim_start(rest.as_str())));
    }
    if text::starts_with(s, "+ ") {
        let rest: String = text::tail_of(s, 2);
        return Some((text::copy("+"), text::trim_start(rest.as_str())));
    }
    let total: usize = text::length(s);
    let n: usize = find_digits_end(s);
    if n > 0 {
        let behind: String = text::tail_of(s, n);
        if text::starts_with(behind.as_str(), ". ") {
            proof {
                reveal_strlit(". ");
            }
            let item: String = text::tail_of(s, n + 2);
            let rest: String = text::trim_start(item.as_str());
            if text::length(rest.as_str()) > 0 {
                return Some((text::head_of(s, n + 1), rest));
            }
        }
    }
    None
}

/// The tag of a line that opens or closes a block of code.
pub open spec fn fence(s: Seq<char>) -> Option<Seq<char>> {
    match text::after_prefix(s, "```"@) {
        Some(rest) => Some(text::trimmed(rest)),
        None => match text::after_prefix(s, "~~~"@) {
            Some(rest) => Some(text::trimmed(rest)),
            None => None,
        },
    }
}

pub fn parse_code_fence(s: &str) -> (r: Option<String>)
    ensures
        text::opt_text(r) == fence(s@),
{
    match text::strip_prefix(s, "```") {
        Some(rest) => Some(text::trim(rest.as_str())),
        None => match text::strip_prefix(s, "~~~") {
            Some(rest) => Some(text::trim(rest.as_str())),
            None => None,
        },
    }
}

/// What ends the formula that a line begins.
pub open spec fn formula_end(s: Seq<char>) -> Option<Seq<char>> {
    let t: Seq<char> = text::trimmed(s);
    if t == "$$"@ {
        Some("$$"@)
    } else if t == "\\["@ {
        Some("\\]"@)
    } else {
        None
    }
}

pub fn parse_math_block_start(s: &str) -> (r: Option<String>)
    ensures
        text::opt_text(r) == formula_end(s@),
{
    let t: String = text::trim(s);
    if text::str_eq(t.as_str(), "$$") {
        Some(text::copy("$$"))
    } else if text::str_eq(t.as_str(), "\\[") {
        Some(text::copy("\\]"))
    } else {
        None
    }
}

/// The formula of a line that holds nothing else.
pub open spec fn line_formula(line: Seq<char>) -> Option<Seq<char>> {
    let s: Seq<char> = text::trimmed(line);
    if s.len() > 4 && ((text::starts(s, "$$"@) && text::ends(s, "$$"@)) || (text::starts(s, "\\["@)
        && text::ends(s, "\\]"@))) {
        Some(text::trimmed(inner(s, 2)))
    } else {
        None
    }
}

pub fn extract_single_line_math_block(line: &str) -> (r: Option<String>)
    ensures
        text::opt_text(r) == line_formula(line@),
{
    let s: String = text::trim(line);
    let t: &str = s.as_str();
    if text::length(t) > 4 && ((text::starts_with(t, "$$") && text::ends_with(t, "$$")) || (
    text::starts_with(t, "\\[") && text::ends_with(t, "\\]"))) {
        let middle: String = inner_of(t, 2);
        Some(text::trim(middle.as_str()))
    } else {
        None
    }
}

/// Whether a line is drawn as a rule.
pub open spec fn thematic(line: Seq<char>) -> bool {
    let s: Seq<char> = text::trimmed(line);
    s.len() >= 3 && (text::only(s, '-') || text::only(s, '*') || text::only(s, '_'))
}

pub fn is_thematic_rule(line: &str) -> (r: bool)
    ensures
        r == thematic(line@),
{
    let s: String = text::trim(line);
    text::length(s.as_str()) >= 3 && (text::is_only(s.as_str(), '-') || text::is_only(
        s.as_str(),
        '*',
    ) || text::is_only(s.as_str(), '_'))
}

/// The mark before a heading.
pub open spec fn heading_mark(level: int) -> Seq<char> {
    if level == 1 {
        " § "@
    } else if level == 2 {
        " • "@
    } else {
        " · "@
    }
}

/// The style of a heading.
pub open spec fn heading_style(level: int, theme: Theme) -> Style {
    Style::plain().fg(
        if level == 1 {
            theme.title_focused
        } else if level == 2 {
            theme.title
        } else {
            theme.accent
        },
    ).bold()
}

pub open spec fn heading_rows(level: int, s: Seq<char>, theme: Theme, width: int) -> Seq<Seq<Piece>> {
    let mark: Seq<char> = heading_mark(level);
    let look: Style = heading_style(level, theme);
    lines::prefixed(
        wrap::visual_lines(s, lines::room(mark, width)),
        style::piece(mark, look),
        style::piece(lines::indent(mark), look),
        Fill::Plain(look),
        theme,
    )
}

pub fn render_markdown_heading(
    out: &mut Vec<Line>,
    level: usize,
    s: &str,
    theme: &Theme,
    width: usize,
)
    ensures
        style::rows(final(out)@) == style::rows(old(out)@) + heading_rows(
            level as int,
            s@,
            *theme,
            width as int,
        ),
{
    let mark: &str = if level == 1 {
        " § "
    } else if level == 2 {
        " • "
    } else {
        " · "
    };
    let look: Style = Style::plain().fg(
        if level == 1 {
            theme.title_focused
        } else if level == 2 {
            theme.title
        } else {
            theme.accent
        },
    ).bold();
    let segs: Vec<String> = wrap::wrap_visual_line(s, lines::room_behind(mark, width));
    let space: String = lines::indent_like(mark);
    lines::push_prefixed(out, &segs, mark, look, space.as_str(), look, Fill::Plain(look), theme);
}

pub open spec fn quote_rows(s: Seq<char>, theme: Theme, width: int) -> Seq<Seq<Piece>> {
    let bar: Piece = style::piece(" │ "@, Style::plain().fg(theme.border));
    lines::prefixed(
        wrap::visual_lines(s, lines::room(" │ "@, width)),
        bar,
        bar,
        Fill::Marked(Style::plain().fg(theme.border_focused).italic()),
        theme,
    )
}

pub fn render_markdown_quote(out: &mut Vec<Line>, s: &str, theme: &Theme, width: usize)
    ensures
        style::rows(final(out)@) == style::rows(old(out)@) + quote_rows(s@, *theme, width as int),
{
    let segs: Vec<String> = wrap::wrap_visual_line(s, lines::room_behind(" │ ", width));
    let look: Style = Style::plain().fg(theme.border);
    lines::push_prefixed(
        out,
        &segs,
        " │ ",
        look,
        " │ ",
        look,
        Fill::Marked(Style::plain().fg(theme.border_focused).italic()),
        theme,
    );
}

pub fn render_markdown_list_item(
    out: &mut Vec<Line>,
    marker: &str,
    s: &str,
    theme: &Theme,
    width: usize,
)
    ensures
        style::rows(final(out)@) == style::rows(old(out)@) + lines::item(
            " "@ + marker@ + " "@,
            s@,
            *theme,
            width as int,
        ),
{
    let prefix: String = text::cat3(" ", marker, " ");
    lines::push_item(out, prefix.as_str(), s, theme, width);
}

pub open spec fn paragraph_rows(s: Seq<char>, theme: Theme, width: int) -> Seq<Seq<Piece>> {
    let space: Piece = style::piece(" "@, Style::plain());
    lines::prefixed(
        wrap::visual_lines(s, lines::room(" "@, width)),
        space,
        space,
        Fill::Marked(Style::plain().fg(theme.foreground)),
        theme,
    )
}

pub fn render_markdown_paragraph(out: &mut Vec<Line>, s: &str, theme: &Theme, width: usize)
    ensures
        style::rows(final(out)@) == style::rows(old(out)@) + paragraph_rows(
            s@,
            *theme,
            width as int,
        ),
{
    let segs: Vec<String> = wrap::wrap_visual_line(s, lines::room_behind(" ", width));
    lines::push_prefixed(
        out,
        &segs,
        " ",
        Style::plain(),
        " ",
        Style::plain(),
        Fill::Marked(Style::plain().fg(theme.foreground)),
        theme,
    );
}

/// The style of a formula on its own lines.
pub open spec fn formula_style(theme: Theme) -> Style {
    Style::plain().fg(theme.accent).bg(style::dimmed(theme.cursor_line_bg, theme.background, 40))
}

/// The first `n` lines of a formula.
pub open spec fn formula_lines(math: Seq<Seq<char>>, theme: Theme, width: int, n: int) -> Seq<
    Seq<Piece>,
>
    decreases n,
{
    if n <= 0 {
        Seq::empty()
    } else {
        let look: Style = formula_style(theme);
        formula_lines(math, theme, width, n - 1) + lines::prefixed(
            wrap::visual_lines(text::trimmed(math[n - 1]), lines::room(" ∑ "@, width)),
            style::piece(
                if n == 1 {
                    " ∑ "@
                } else {
                    "   "@
                },
                look.bold(),
            ),
            style::piece("   "@, look.bold()),
            Fill::Formula(look.italic()),
            theme,
        )
    }
}

/// A formula on its own lines.
#[verifier::opaque]
pub open spec fn formula(math: Seq<Seq<char>>, theme: Theme, width: int) -> Seq<Seq<Piece>> {
    seq![lines::note(" equation"@, theme.accent, theme)] + (if math.len() == 0 {
        seq![
            seq![
                style::piece(" ∑ "@, formula_style(theme).bold()),
                style::piece(""@, formula_style(theme)),
            ],
        ]
    } else {
        formula_lines(math, theme, width, math.len() as int)
    })
}

pub fn render_math_block(out: &mut Vec<Line>, math: &Vec<String>, theme: &Theme, width: usize)
    ensures
        style::rows(final(out)@) == style::rows(old(out)@) + formula(
            text::texts(math@),
            *theme,
            width as int,
        ),
{
    reveal(formula);
    broadcast use style::group_line_lists;

    let look: Style = Style::plain().fg(theme.accent).bg(
        style::dim_bg_towards(theme.cursor_line_bg, theme.background, 40),
    );
    style::push_line(out, lines::popup_note_line(" equation", theme.accent, theme));
    if math.len() == 0 {
        let spans: Vec<Span> = vec![style::span(" ∑ ", look.bold()), style::span("", look)];
        let line: Line = Line { spans };
        assert(line@ =~= seq![style::piece(" ∑ "@, look.bold()), style::piece(""@, look)]);
        style::push_line(out, line);
        return;
    }
    let ghost before: Seq<Seq<Piece>> = style::rows(out@);
    let mut i: usize = 0;
    while i < math.len()
        invariant
            i <= math@.len(),
            look == formula_style(*theme),
            style::rows(out@) == before + formula_lines(
                text::texts(math@),
                *theme,
                width as int,
                i as int,
            ),
        decreases math@.len() - i,
    {
        broadcast use style::group_line_lists;

        assert(text::texts(math@)[i as int] == math@[i as int]@);
        let bare: String = text::trim(math[i].as_str());
        let segs: Vec<String> = wrap::wrap_visual_line(
            bare.as_str(),
            lines::room_behind(" ∑ ", width),
        );
        lines::push_prefixed(
            out,
            &segs,
            if i == 0 {
                " ∑ "
            } else {
                "   "
            },
            look.bold(),
            "   ",
            look.bold(),
            Fill::Formula(look.italic()),
            theme,
        );
        i += 1;
    }
}

/// A line of text, trimmed, outside of blocks and tables.
#[verifier::opaque]
pub open spec fn text_line(s: Seq<char>, theme: Theme, width: int) -> Seq<Seq<Piece>> {
    match line_formula(s) {
        Some(f) => formula(seq![f], theme, width) + seq![Seq::<Piece>::empty()],
        None => if s.len() == 0 {
            seq![Seq::<Piece>::empty()]
        } else if thematic(s) {
            seq![lines::rule(width, theme)]
        } else {
            match heading(s) {
                Some(h) => heading_rows(h.0, h.1, theme, width),
                None => match strong(s) {
                    Some(h) => heading_rows(2, h, theme, width),
                    None => match text::after_prefix(s, ">"@) {
                        Some(q) => quote_rows(text::trimmed_start(q), theme, width),
                        None => match list_item(s) {
                            Some(m) => lines::item(" "@ + m.0 + " "@, m.1, theme, width),
                            None => paragraph_rows(s, theme, width),
                        },
                    },
                },
            }
        },
    }
}

fn push_text_line(out: &mut Vec<Line>, s: &str, theme: &Theme, width: usize)
    ensures
        style::rows(final(out)@) == style::rows(old(out)@) + text_line(s@, *theme, width as int),
{
    reveal(text_line);
    broadcast use style::group_line_lists;

    if let Some(f) = extract_single_line_math_block(s) {
        let ghost g: Seq<char> = f@;
        let one: Vec<String> = vec![f];
        assert(text::texts(one@) =~= seq![g]);
        render_math_block(out, &one, theme, width);
        style::push_line(out, style::blank());
        return;
    }
    if text::length(s) == 0 {
        style::push_line(out, style::blank());
        return;
    }
    if is_thematic_rule(s) {
        style::push_line(out, lines::popup_rule_line(width, theme));
        return;
    }
    if let Some(h) = parse_markdown_heading(s) {
        render_markdown_heading(out, h.0, h.1.as_str(), theme, width);
        return;
    }
    if let Some(h) = strong_only_heading_text(s) {
        render_markdown_heading(out, 2, h.as_str(), theme, width);
        return;
    }
    if let Some(q) = text::strip_prefix(s, ">") {
        let t: String = text::trim_start(q.as_str());
        render_markdown_quote(out, t.as_str(), theme, width);
        return;
    }
    if let Some(m) = parse_list_marker(s) {
        render_markdown_list_item(out, m.0.as_str(), m.1.as_str(), theme, width);
        return;
    }
    render_markdown_paragraph(out, s, theme, width);
}

/// What the lines of a document belong to.
pub enum Within {
    Text,
    Code { tag: Seq<char>, code: Seq<Seq<char>> },
    Math { end: Seq<char>, math: Seq<Seq<char>> },
}

/// A document on its way into lines: the lines that are done, what the next one belongs to, and the
/// lines that could be a table.
pub struct Doc {
    pub done: Seq<Seq<Piece>>,
    pub within: Within,
    pub table: Seq<Seq<char>>,
}

/// The table, if there is one.
pub open spec fn pending_table(d: Doc, theme: Theme, width: int) -> Seq<Seq<Piece>> {
    if d.table.len() == 0 {
        Seq::empty()
    } else {
        tables::table_rows(d.table, theme, width)
    }
}

/// A line, trimmed, that belongs neither to a block nor to a table.
pub open spec fn after_text(d: Doc, t: Seq<char>, theme: Theme, width: int) -> Doc {
    let done: Seq<Seq<Piece>> = d.done + pending_table(d, theme, width);
    match fence(t) {
        Some(tag) => Doc {
            done,
            within: Within::Code { tag, code: Seq::empty() },
            table: Seq::empty(),
        },
        None => match formula_end(t) {
            Some(end) => Doc {
                done,
                within: Within::Math { end, math: Seq::empty() },
                table: Seq::empty(),
            },
            None => Doc {
                done: done + text_line(t, theme, width),
                within: Within::Text,
                table: Seq::empty(),
            },
        },
    }
}

/// One more line.
pub open spec fn after_line(d: Doc, raw: Seq<char>, syn: SyntaxTables, theme: Theme, width: int) -> Doc {
    let line: Seq<char> = text::without_trailing(raw, '\r');
    let t: Seq<char> = text::trimmed(line);
    match d.within {
        Within::Code { tag, code } => if fence(t) is Some {
            Doc {
                done: d.done + code::fenced(syn, tag, code, theme, width) + seq![
                    Seq::<Piece>::empty(),
                ],
                within: Within::Text,
                table: d.table,
            }
        } else {
            Doc { within: Within::Code { tag, code: code.push(line) }, ..d }
        },
        Within::Math { end, math } => if t == end {
            Doc {
                done: d.done + formula(math, theme, width) + seq![Seq::<Piece>::empty()],
                within: Within::Text,
                table: d.table,
            }
        } else {
            Doc { within: Within::Math { end, math: math.push(line) }, ..d }
        },
        Within::Text => if tables::candidate(t) {
            Doc { table: d.table.push(t), ..d }
        } else {
            after_text(d, t, theme, width)
        },
    }
}

/// The first `n` lines of a document.
pub open spec fn after_lines(
    all: Seq<Seq<char>>,
    syn: SyntaxTables,
    theme: Theme,
    width: int,
    n: int,
) -> Doc
    decreases n,
{
    if n <= 0 {
        Doc { done: Seq::empty(), within: Within::Text, table: Seq::empty() }
    } else {
        after_line(after_lines(all, syn, theme, width, n - 1), all[n - 1], syn, theme, width)
    }
}

/// What is left once all lines are read: an open block, then a table.
pub open spec fn finished(d: Doc, syn: SyntaxTables, theme: Theme, width: int) -> Seq<Seq<Piece>> {
    let all: Seq<Seq<Piece>> = d.done + (match d.within {
        Within::Code { tag, code } => code::fenced(syn, tag, code, theme, width),
        Within::Math { end, math } => formula(math, theme, width),
        Within::Text => Seq::empty(),
    }) + pending_table(d, theme, width);
    if all.len() == 0 {
        seq![Seq::<Piece>::empty()]
    } else {
        all
    }
}

/// A document that is no JSON.
pub open spec fn marked_up(s: Seq<char>, syn: SyntaxTables, theme: Theme, width: int) -> Seq<
    Seq<Piece>,
> {
    let all: Seq<Seq<char>> = text::lines_of(s);
    finished(after_lines(all, syn, theme, width, all.len() as int), syn, theme, width)
}

/// A document, given the layout of it as JSON, if it is that.
pub open spec fn laid_out_or_marked_up(
    s: Seq<char>,
    laid_out: Option<Seq<char>>,
    syn: SyntaxTables,
    theme: Theme,
    width: int,
) -> Seq<Seq<Piece>> {
    match laid_out {
        Some(p) => seq![lines::note(" json document"@, theme.accent, theme)] + code::fenced(
            syn,
            "json"@,
            text::lines_of(p),
            theme,
            width,
        ),
        None => marked_up(s, syn, theme, width),
    }
}

/// A document.
#[verifier::opaque]
pub open spec fn document(s: Seq<char>, syn: SyntaxTables, theme: Theme, width: int) -> Seq<
    Seq<Piece>,
> {
    laid_out_or_marked_up(
        s,
        if code::json_start(text::trimmed(s)) {
            mcp::pretty(text::trimmed(s))
        } else {
            None
        },
        syn,
        theme,
        width,
    )
}

enum Mode {
    Text,
    Code { tag: String, code: Vec<String> },
    Math { end: String, math: Vec<String> },
}

struct Writer {
    done: Vec<Line>,
    mode: Mode,
    table: Vec<String>,
}

spec fn mode_view(m: Mode) -> Within {
    match m {
        Mode::Text => Within::Text,
        Mode::Code { tag, code } => Within::Code { tag: tag@, code: text::texts(code@) },
        Mode::Math { end, math } => Within::Math { end: end@, math: text::texts(math@) },
    }
}

spec fn writer_view(w: Writer) -> Doc {
    Doc { done: style::rows(w.done@), within: mode_view(w.mode), table: text::texts(w.table@) }
}

fn flush_markdown_table(done: Vec<Line>, table: Vec<String>, theme: &Theme, width: usize) -> (r:
    Vec<Line>)
    ensures
        style::rows(r@) == style::rows(done@) + (if table@.len() == 0 {
            Seq::empty()
        } else {
            tables::table_rows(text::texts(table@), *theme, width as int)
        }),
{
    broadcast use style::group_line_lists;

    let mut out: Vec<Line> = done;
    if table.len() > 0 {
        tables::render_markdown_table(&mut out, &table, theme, width);
    }
    out
}

fn write_text(w: Writer, t: &str, theme: &Theme, width: usize) -> (r: Writer)
    ensures
        writer_view(r) == after_text(writer_view(w), t@, *theme, width as int),
{
    broadcast use text::group_texts;

    assert(text::texts(w.table@).len() == w.table@.len());
    let done: Vec<Line> = flush_markdown_table(w.done, w.table, theme, width);
    if let Some(tag) = parse_code_fence(t) {
        return Writer { done, mode: Mode::Code { tag, code: Vec::new() }, table: Vec::new() };
    }
    if let Some(end) = parse_math_block_start(t) {
        return Writer { done, mode: Mode::Math { end, math: Vec::new() }, table: Vec::new() };
    }
    let mut out: Vec<Line> = done;
    push_text_line(&mut out, t, theme, width);
    Writer { done: out, mode: Mode::Text, table: Vec::new() }
}

fn write_line(w: Writer, raw: &str, syn: &SyntaxTables, theme: &Theme, width: usize) -> (r: Writer)
    ensures
        writer_view(r) == after_line(writer_view(w), raw@, *syn, *theme, width as int),
{
    broadcast use text::group_texts;

    let line: String = text::trim_trailing(raw, '\r');
    let t: String = text::trim(line.as_str());
    match w.mode {
        Mode::Code { tag, code } => {
            if parse_code_fence(t.as_str()).is_some() {
                let mut out: Vec<Line> = w.done;
                code::render_fenced_code_block(&mut out, syn, tag.as_str(), code, theme, width);
                style::push_line(&mut out, style::blank());
                return Writer { done: out, mode: Mode::Text, table: w.table };
            }
            let mut more: Vec<String> = code;
            more.push(line);
            Writer { done: w.done, mode: Mode::Code { tag, code: more }, table: w.table }
        },
        Mode::Math { end, math } => {
            if text::str_eq(t.as_str(), end.as_str()) {
                let mut out: Vec<Line> = w.done;
                render_math_block(&mut out, &math, theme, width);
                style::push_line(&mut out, style::blank());
                return Writer { done: out, mode: Mode::Text, table: w.table };
            }
            let mut more: Vec<String> = math;
            more.push(line);
            Writer { done: w.done, mode: Mode::Math { end, math: more }, table: w.table }
        },
        Mode::Text => {
            if tables::is_markdown_table_candidate(t.as_str()) {
                let mut more: Vec<String> = w.table;
                more.push(t);
                return Writer { done: w.done, mode: Mode::Text, table: more };
            }
            write_text(
                Writer { done: w.done, mode: Mode::Text, table: w.table },
                t.as_str(),
                theme,
                width,
            )
        },
    }
}

fn finish(w: Writer, syn: &SyntaxTables, theme: &Theme, width: usize) -> (r: Vec<Line>)
    ensures
        style::rows(r@) == finished(writer_view(w), *syn, *theme, width as int),
{
    broadcast use style::group_line_lists;

    assert(text::texts(w.table@).len() == w.table@.len());
    let mut out: Vec<Line> = w.done;
    match w.mode {
        Mode::Code { tag, code } => {
            code::render_fenced_code_block(&mut out, syn, tag.as_str(), code, theme, width);
        },
        Mode::Math { end, math } => {
            render_math_block(&mut out, &math, theme, width);
        },
        Mode::Text => {},
    }
    let mut all: Vec<Line> = flush_markdown_table(out, w.table, theme, width);
    assert(style::rows(all@).len() == all@.len());
    if all.len() == 0 {
        assert(style::rows(all@) =~= Seq::<Seq<Piece>>::empty());
        style::push_line(&mut all, style::blank());
    }
    all
}

fn write_marked_up(s: &str, syn: &SyntaxTables, theme: &Theme, width: usize) -> (r: Vec<Line>)
    ensures
        style::rows(r@) == marked_up(s@, *syn, *theme, width as int),
{
    broadcast use {text::group_texts, style::group_lines};

    let all: Vec<String> = text::lines(s);
    let ghost given: Seq<Seq<char>> = text::texts(all@);
    let mut w: Writer = Writer { done: Vec::new(), mode: Mode::Text, table: Vec::new() };
    let mut i: usize = 0;
    while i < all.len()
        invariant
            i <= all@.len(),
            given == text::texts(all@),
            writer_view(w) == after_lines(given, *syn, *theme, width as int, i as int),
        decreases all@.len() - i,
    {
        assert(given[i as int] == all@[i as int]@);
        w = write_line(w, all[i].as_str(), syn, theme, width);
        i += 1;
    }
    assert(given.len() == all@.len());
    finish(w, syn, theme, width)
}

/// The lines of a document, given its layout as JSON, if it is that.
pub fn render_document_with(
    s: &str,
    laid_out: Option<String>,
    syn: &SyntaxTables,
    theme: &Theme,
    width: usize,
) -> (r: Vec<Line>)
    ensures
        style::rows(r@) == laid_out_or_marked_up(
            s@,
            text::opt_text(laid_out),
            *syn,
            *theme,
            width as int,
        ),
{
    broadcast use {style::group_lines, style::group_line_lists};

    match laid_out {
        Some(p) => {
            let mut out: Vec<Line> = Vec::new();
            style::push_line(
                &mut out,
                lines::popup_note_line(" json document", theme.accent, theme),
            );
            code::render_fenced_code_block(
                &mut out,
                syn,
                "json",
                text::lines(p.as_str()),
                theme,
                width,
            );
            out
        },
        None => write_marked_up(s, syn, theme, width),
    }
}

/// The lines of a document: JSON is laid out, and all else read as marked-up text.
pub fn render_markdown_document(s: &str, syn: &SyntaxTables, theme: &Theme, width: usize) -> (r:
    Vec<Line>)
    ensures
        style::rows(r@) == document(s@, *syn, *theme, width as int),
{
    reveal(document);
    let bare: String = text::trim(s);
    let laid_out: Option<String> = if code::is_json_start(bare.as_str()) {
        mcp::pretty_json(bare.as_str())
    } else {
        None
    };
    render_document_with(s, laid_out, syn, theme, width)
}

} // verus!
