//! The style of every character in the editor.

use vstd::prelude::*;

use crate::editor_view::buffer;
use crate::editor_view::buffer::Buffer;
use crate::editor_view::buffer::HighlightSnapshot;
use crate::editor_view::buffer::LineDiffStatus;
use crate::editor_view::buffer::Mode;
use crate::editor_view::buffer::SearchHighlight;
use crate::editor_view::buffer::Segment;
use crate::style;
use crate::style::Color;
use crate::style::Style;
use crate::style::Theme;
use crate::text;

verus! {

/// The background of the text: one that a selection and the caret's line stand out from.
pub open spec fn text_bg(focused: bool, theme: Theme) -> Color {
    let first: Color = style::dimmed(
        theme.cursor_line_bg,
        theme.background,
        if focused {
            78
        } else {
            88
        },
    );
    let next: Color = if first == theme.selection_bg {
        theme.background
    } else {
        first
    };
    if next == theme.cursor_line_bg {
        theme.background
    } else {
        next
    }
}

pub fn buffer_input_bg(theme: &Theme, focused: bool) -> (r: Color)
    ensures
        r == text_bg(focused, *theme),
{
    let pct: u8 = if focused {
        78
    } else {
        88
    };
    let first: Color = style::dim_bg_towards(theme.cursor_line_bg, theme.background, pct);
    let next: Color = if first == theme.selection_bg {
        theme.background
    } else {
        first
    };
    if next == theme.cursor_line_bg {
        theme.background
    } else {
        next
    }
}

/// The style of a line before anything is marked in it.
pub open spec fn base_style(theme: Theme, bg: Color, caret_line: bool, selecting: bool) -> Style {
    let base: Style = Style::plain().fg(theme.foreground).bg(bg);
    if caret_line && !selecting {
        base.bg(theme.cursor_line_bg).underlined()
    } else {
        base
    }
}

pub fn base_line_style(theme: &Theme, bg: Color, caret_line: bool, selecting: bool) -> (r: Style)
    ensures
        r == base_style(*theme, bg, caret_line, selecting),
{
    let base: Style = Style::plain().fg(theme.foreground).bg(bg);
    if caret_line && !selecting {
        base.bg(theme.cursor_line_bg).underlined()
    } else {
        base
    }
}

/// A style overlaid by each of the first `n` ranges that the character at `i` lies in.
pub open spec fn syntax_style(segs: Seq<Segment>, base: Style, i: int, n: int) -> Style
    decreases n,
{
    if n <= 0 {
        base
    } else {
        let before: Style = syntax_style(segs, base, i, n - 1);
        if segs[n - 1].start <= i < segs[n - 1].end {
            before.patch(segs[n - 1].style)
        } else {
            before
        }
    }
}

fn apply_syntax(segs: &Vec<Segment>, base: Style, i: usize) -> (r: Style)
    ensures
        r == syntax_style(segs@, base, i as int, segs@.len() as int),
{
    let mut look: Style = base;
    let mut n: usize = 0;
    while n < segs.len()
        invariant
            n <= segs@.len(),
            look == syntax_style(segs@, base, i as int, n as int),
        decreases segs@.len() - n,
    {
        if segs[n].start <= i && i < segs[n].end {
            look = look.patch(segs[n].style);
        }
        n += 1;
    }
    look
}

/// The style of a character of a match.
pub open spec fn match_style(base: Style, current: bool, theme: Theme) -> Style {
    if current {
        base.bg(theme.selection_bg).bold().reversed()
    } else {
        base.bg(theme.selection_bg).bold()
    }
}

/// A style marked for each of the first `n` matches that the character at `i` lies in; `caret` is
/// the column of the caret where its match is to stand out.
pub open spec fn found_style(
    matches: Seq<(usize, usize)>,
    caret: Option<int>,
    base: Style,
    i: int,
    theme: Theme,
    n: int,
) -> Style
    decreases n,
{
    if n <= 0 {
        base
    } else {
        let before: Style = found_style(matches, caret, base, i, theme, n - 1);
        let m: (usize, usize) = matches[n - 1];
        if m.0 <= i < m.1 {
            match_style(
                before,
                match caret {
                    Some(c) => m.0 <= c < m.1,
                    None => false,
                },
                theme,
            )
        } else {
            before
        }
    }
}

fn apply_matches(
    matches: &Vec<(usize, usize)>,
    caret: Option<usize>,
    base: Style,
    i: usize,
    theme: &Theme,
) -> (r: Style)
    ensures
        r == found_style(
            matches@,
            match caret {
                Some(c) => Some(c as int),
                None => None,
            },
            base,
            i as int,
            *theme,
            matches@.len() as int,
        ),
{
    let ghost at: Option<int> = match caret {
        Some(c) => Some(c as int),
        None => None,
    };
    let mut look: Style = base;
    let mut n: usize = 0;
    while n < matches.len()
        invariant
            n <= matches@.len(),
            at == (match caret {
                Some(c) => Some(c as int),
                None => None,
            }),
            look == found_style(matches@, at, base, i as int, *theme, n as int),
        decreases matches@.len() - n,
    {
        let m: (usize, usize) = matches[n];
        if m.0 <= i && i < m.1 {
            let current: bool = match caret {
                Some(c) => m.0 <= c && c < m.1,
                None => false,
            };
            look = look.bg(theme.selection_bg).bold();
            if current {
                look = look.reversed();
            }
        }
        n += 1;
    }
    look
}

/// The column of the caret on a line while a term is typed.
pub open spec fn live_caret(b: Buffer, live: bool, line: int) -> Option<int> {
    if live && line == b.cursor_line {
        Some(b.cursor_col as int)
    } else {
        None
    }
}

/// A style with what the search found marked.
pub open spec fn search_style(
    b: Buffer,
    search: Option<SearchHighlight>,
    base: Style,
    line: int,
    i: int,
    theme: Theme,
) -> Style {
    match search {
        Some(s) => if s.term@.len() == 0 || line >= b.lines@.len() {
            base
        } else {
            found_style(
                b.lines@[line].matches@,
                live_caret(b, s.live, line),
                base,
                i,
                theme,
                b.lines@[line].matches@.len() as int,
            )
        },
        None => base,
    }
}

fn apply_search(
    b: &Buffer,
    search: Option<SearchHighlight>,
    base: Style,
    line: usize,
    i: usize,
    theme: &Theme,
) -> (r: Style)
    ensures
        r == search_style(*b, search, base, line as int, i as int, *theme),
{
    let s: SearchHighlight = match search {
        Some(s) => s,
        None => {
            return base;
        },
    };
    if text::length(s.term) == 0 || line >= b.lines.len() {
        return base;
    }
    let caret: Option<usize> = if s.live && line == b.cursor_line {
        Some(b.cursor_col)
    } else {
        None
    };
    apply_matches(&b.lines[line].matches, caret, base, i, theme)
}

/// Whether a character of a line is selected.
pub open spec fn is_selected(b: Buffer, line: int, i: int) -> bool {
    match b.selection {
        Some(p) => {
            &&& line < b.lines@.len()
            &&& p.1 > b.lines@[line].char_start
            &&& p.0 < b.lines@[line].char_end
            &&& text::monus(p.0 as int, b.lines@[line].char_start as int) <= i
            &&& i < text::monus(p.1 as int, b.lines@[line].char_start as int)
        },
        None => false,
    }
}

fn in_selection(b: &Buffer, line: usize, i: usize) -> (r: bool)
    ensures
        r == is_selected(*b, line as int, i as int),
{
    match b.selection {
        Some(p) => if line < b.lines.len() {
            let from: usize = b.lines[line].char_start;
            p.1 > from && p.0 < b.lines[line].char_end && text::minus(p.0, from) <= i && i
                < text::minus(p.1, from)
        } else {
            false
        },
        None => false,
    }
}

/// A bracket and its partner: line and column of each.
#[derive(Clone, Copy, Debug, PartialEq, Eq, Structural)]
pub struct BracketRender {
    pub cursor_line: usize,
    pub cursor_col: usize,
    pub partner_line: usize,
    pub partner_col: usize,
}

/// Whether a column lies in a string or a comment.
pub open spec fn quoted(segs: Option<Seq<Segment>>, col: int) -> bool {
    match segs {
        Some(v) => exists|k: int|
            0 <= k < v.len() && (#[trigger] v[k]).start <= col && col < v[k].end && v[k].quoted,
        None => false,
    }
}

pub fn cursor_in_string_or_comment(segs: Option<&Vec<Segment>>, col: usize) -> (r: bool)
    ensures
        r == quoted(buffer::opt_segments(segs), col as int),
{
    let v: &Vec<Segment> = match segs {
        Some(v) => v,
        None => {
            return false;
        },
    };
    let mut k: usize = 0;
    while k < v.len()
        invariant
            k <= v@.len(),
            buffer::opt_segments(segs) == Some(v@),
            forall|j: int|
                0 <= j < k ==> !((#[trigger] v@[j]).start <= col && col < v@[j].end && v@[j].quoted),
        decreases v@.len() - k,
    {
        if v[k].start <= col && col < v[k].end && v[k].quoted {
            assert(v@[k as int].quoted);
            return true;
        }
        k += 1;
    }
    false
}

/// The brackets that are marked: those of a pair, unless something is being selected, the caret is
/// out of sight, or it stands in a string or a comment.
pub open spec fn bracket_pair(b: Buffer, s: Option<HighlightSnapshot>, mode: Mode, height: int) -> Option<
    BracketRender,
> {
    let row: int = b.cursor_line - b.viewport.offset_line;
    if mode == Mode::Visual || !(0 <= row < height) || quoted(
        buffer::segments_of(b, s, b.cursor_line as int),
        b.cursor_col as int,
    ) {
        None
    } else {
        match b.bracket_partner {
            Some(p) => Some(
                BracketRender {
                    cursor_line: b.cursor_line,
                    cursor_col: b.cursor_col,
                    partner_line: p.0,
                    partner_col: p.1,
                },
            ),
            None => None,
        }
    }
}

pub fn bracket_pair_for_render(b: &Buffer, s: &Option<HighlightSnapshot>, mode: Mode, height: usize) -> (r:
    Option<BracketRender>)
    ensures
        r == bracket_pair(*b, *s, mode, height as int),
{
    if mode == Mode::Visual || b.cursor_line < b.viewport.offset_line || b.cursor_line
        - b.viewport.offset_line >= height {
        return None;
    }
    let (segs, _error): (Option<&Vec<Segment>>, Option<buffer::SegmentMapError>) =
        buffer::map_snapshot_for_line(b, s, b.cursor_line);
    if cursor_in_string_or_comment(segs, b.cursor_col) {
        return None;
    }
    match b.bracket_partner {
        Some(p) => Some(
            BracketRender {
                cursor_line: b.cursor_line,
                cursor_col: b.cursor_col,
                partner_line: p.0,
                partner_col: p.1,
            },
        ),
        None => None,
    }
}

/// Whether a bracket of the pair stands here.
pub open spec fn at_bracket(pair: Option<BracketRender>, line: int, i: int) -> bool {
    match pair {
        Some(p) => (p.cursor_line == line && p.cursor_col == i) || (p.partner_line == line
            && p.partner_col == i),
        None => false,
    }
}

/// What the styles of the characters depend on.
pub struct Marks<'a> {
    pub search: Option<SearchHighlight<'a>>,
    pub pair: Option<BracketRender>,
}

/// The style of the character at `i` of a line: that of the line, then of the syntax, of the search,
/// of the selection, and of the brackets.
pub open spec fn look(
    b: Buffer,
    segs: Option<Seq<Segment>>,
    m: Marks,
    base: Style,
    line: int,
    i: int,
    theme: Theme,
) -> Style {
    let colored: Style = match segs {
        Some(v) => syntax_style(v, base, i, v.len() as int),
        None => base,
    };
    let found: Style = search_style(b, m.search, colored, line, i, theme);
    let selected: Style = if is_selected(b, line, i) {
        found.bg(theme.selection_bg)
    } else {
        found
    };
    if at_bracket(m.pair, line, i) {
        selected.bg(theme.bracket_match).bold().underlined()
    } else {
        selected
    }
}

pub fn look_of(
    b: &Buffer,
    segs: Option<&Vec<Segment>>,
    m: &Marks,
    base: Style,
    line: usize,
    i: usize,
    theme: &Theme,
) -> (r: Style)
    ensures
        r == look(
            *b,
            buffer::opt_segments(segs),
            *m,
            base,
            line as int,
            i as int,
            *theme,
        ),
{
    let colored: Style = match segs {
        Some(v) => apply_syntax(v, base, i),
        None => base,
    };
    let found: Style = apply_search(b, m.search, colored, line, i, theme);
    let selected: Style = if in_selection(b, line, i) {
        found.bg(theme.selection_bg)
    } else {
        found
    };
    let bracket: bool = match m.pair {
        Some(p) => (p.cursor_line == line && p.cursor_col == i) || (p.partner_line == line
            && p.partner_col == i),
        None => false,
    };
    if bracket {
        selected.bg(theme.bracket_match).bold().underlined()
    } else {
        selected
    }
}

/// The style of the line number.
pub open spec fn number_style(caret_line: bool, bg: Color, theme: Theme) -> Style {
    if caret_line {
        Style::plain().fg(theme.border_focused).bold().patch(
            Style::plain().bg(theme.cursor_line_bg),
        )
    } else {
        Style::plain().fg(theme.border).patch(Style::plain().bg(bg))
    }
}

/// The style of the bar behind the line number.
pub open spec fn bar_style(caret_line: bool, bg: Color, status: LineDiffStatus, theme: Theme) -> Style {
    let base: Style = if caret_line {
        Style::plain().fg(theme.border_focused).patch(Style::plain().bg(theme.cursor_line_bg))
    } else {
        Style::plain().fg(theme.border).patch(Style::plain().bg(bg))
    };
    match status {
        LineDiffStatus::Added => base.fg(theme.diff_added),
        LineDiffStatus::Modified => base.fg(theme.diff_modified),
        LineDiffStatus::DeletedAbove => base.fg(theme.diff_deleted),
        LineDiffStatus::Unchanged => base,
    }
}

pub fn gutter_styles(caret_line: bool, bg: Color, status: LineDiffStatus, theme: &Theme) -> (r: (
    Style,
    Style,
))
    ensures
        r.0 == number_style(caret_line, bg, *theme),
        r.1 == bar_style(caret_line, bg, status, *theme),
{
    let (number, base): (Style, Style) = if caret_line {
        let behind: Style = Style::plain().bg(theme.cursor_line_bg);
        (
            Style::plain().fg(theme.border_focused).bold().patch(behind),
            Style::plain().fg(theme.border_focused).patch(behind),
        )
    } else {
        let behind: Style = Style::plain().bg(bg);
        (
            Style::plain().fg(theme.border).patch(behind),
            Style::plain().fg(theme.border).patch(behind),
        )
    };
    (number, diff_sep_style(base, status, theme))
}

pub fn diff_sep_style(base: Style, status: LineDiffStatus, theme: &Theme) -> (r: Style)
    ensures
        r == (match status {
            LineDiffStatus::Added => base.fg(theme.diff_added),
            LineDiffStatus::Modified => base.fg(theme.diff_modified),
            LineDiffStatus::DeletedAbove => base.fg(theme.diff_deleted),
            LineDiffStatus::Unchanged => base,
        }),
{
    match status {
        LineDiffStatus::Added => base.fg(theme.diff_added),
        LineDiffStatus::Modified => base.fg(theme.diff_modified),
        LineDiffStatus::DeletedAbove => base.fg(theme.diff_deleted),
        LineDiffStatus::Unchanged => base,
    }
}

} // verus!
