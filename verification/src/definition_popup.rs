//! The popup that shows where a name is defined.

use vstd::prelude::*;

use crate::artifacts_popup::code;
use crate::artifacts_popup::code::StyledRange;
use crate::frames;
use crate::geometry;
use crate::geometry::Rect;
use crate::runs;
use crate::runs::Gathered;
use crate::runs::Runs;
use crate::style;
use crate::style::Line;
use crate::style::Piece;
use crate::style::Style;
use crate::style::Theme;
use crate::text;

verus! {

/// A definition: the lines that hold it, the first of them counted from one.
pub struct DefinitionView {
    pub title: String,
    pub lines: Vec<String>,
    pub start_line: usize,
    pub scroll: usize,
}

/// What is known of the lines of the file: for each line of the last analysis the ranges of the
/// line that is shown from it, if they could be found, and for each line of the file the one of the
/// analysis, where they are not the same.
pub struct Analysis {
    pub per_line: Vec<Option<Vec<StyledRange>>>,
    pub line_map: Option<Vec<Option<usize>>>,
}

/// The width and height of the popup on a screen.
pub fn preferred_size(screen: Rect) -> (r: (u16, u16))
    ensures
        r.0 == geometry::between(geometry::less(screen.width, 6), 24, 100),
        r.1 == geometry::between(geometry::less(screen.height, 6), 6, 30),
{
    (
        geometry::keep_between(screen.width.saturating_sub(6), 24, 100),
        geometry::keep_between(screen.height.saturating_sub(6), 6, 30),
    )
}

/// The line of the analysis that a line of the file was.
pub open spec fn analysed_line(a: Analysis, line: int) -> Option<int> {
    match a.line_map {
        Some(map) => if 0 <= line < map@.len() {
            match map@[line] {
                Some(k) => Some(k as int),
                None => None,
            }
        } else {
            None
        },
        None => Some(line),
    }
}

/// What is known of a line of the file.
pub open spec fn known(a: Option<Analysis>, line: int) -> Option<Seq<StyledRange>> {
    match a {
        Some(s) => match analysed_line(s, line) {
            Some(k) => if 0 <= k < s.per_line@.len() {
                match s.per_line@[k] {
                    Some(v) => Some(v@),
                    None => None,
                }
            } else {
                None
            },
            None => None,
        },
        None => None,
    }
}

pub fn mapped_for_line<'a>(a: &'a Option<Analysis>, line: usize) -> (r: Option<&'a Vec<StyledRange>>)
    ensures
        code::ranges(r) == known(*a, line as int),
{
    let s: &Analysis = match a {
        Some(s) => s,
        None => {
            return None;
        },
    };
    let k: usize = match &s.line_map {
        Some(map) => if line < map.len() {
            match map[line] {
                Some(k) => k,
                None => {
                    return None;
                },
            }
        } else {
            return None;
        },
        None => line,
    };
    if k < s.per_line.len() {
        match &s.per_line[k] {
            Some(v) => Some(v),
            None => None,
        }
    } else {
        None
    }
}

/// The style of the character at `i`: that of the last of the first `n` ranges that it lies in.
pub open spec fn style_at(ranges: Seq<StyledRange>, base: Style, i: int, n: int) -> Style
    decreases n,
{
    if n <= 0 {
        base
    } else if ranges[n - 1].start <= i < ranges[n - 1].end {
        base.patch(ranges[n - 1].style)
    } else {
        style_at(ranges, base, i, n - 1)
    }
}

fn find_style_at(ranges: &Vec<StyledRange>, base: Style, i: usize) -> (r: Style)
    ensures
        r == style_at(ranges@, base, i as int, ranges@.len() as int),
{
    let mut n: usize = ranges.len();
    while n > 0
        invariant
            n <= ranges@.len(),
            style_at(ranges@, base, i as int, ranges@.len() as int) == style_at(
                ranges@,
                base,
                i as int,
                n as int,
            ),
        decreases n,
    {
        if ranges[n - 1].start <= i && i < ranges[n - 1].end {
            return base.patch(ranges[n - 1].style);
        }
        n -= 1;
    }
    base
}

/// A line on its way into pieces, and its column.
pub struct Shown {
    pub gathered: Gathered,
    pub col: int,
}

/// The style of a character of a line.
pub open spec fn look_at(mapped: Option<Seq<StyledRange>>, base: Style, i: int) -> Style {
    match mapped {
        Some(ranges) => style_at(ranges, base, i, ranges.len() as int),
        None => base,
    }
}

/// The first `n` characters; a tab reaches to the next fourth column.
pub open spec fn shown_upto(s: Seq<char>, mapped: Option<Seq<StyledRange>>, base: Style, n: int) -> Shown
    decreases n,
{
    if n <= 0 {
        Shown { gathered: runs::nothing(look_at(mapped, base, 0)), col: 0 }
    } else {
        let before: Shown = shown_upto(s, mapped, base, n - 1);
        let look: Style = look_at(mapped, base, n - 1);
        if s[n - 1] == '\t' {
            let advance: int = 4 - before.col % 4;
            Shown {
                gathered: runs::with_spaces(before.gathered, look, advance),
                col: before.col + advance,
            }
        } else {
            Shown { gathered: runs::with(before.gathered, s[n - 1], look), col: before.col + 1 }
        }
    }
}

/// A line of the definition.
pub open spec fn line_pieces(s: Seq<char>, mapped: Option<Seq<StyledRange>>, theme: Theme) -> Seq<Piece> {
    let base: Style = Style::plain().fg(theme.foreground).bg(theme.background);
    if s.len() == 0 {
        seq![style::piece(Seq::empty(), base)]
    } else {
        runs::all_pieces(shown_upto(s, mapped, base, s.len() as int).gathered)
    }
}

fn look_of(mapped: Option<&Vec<StyledRange>>, base: Style, i: usize) -> (r: Style)
    ensures
        r == look_at(code::ranges(mapped), base, i as int),
{
    match mapped {
        Some(v) => find_style_at(v, base, i),
        None => base,
    }
}

pub fn styled_line(s: &str, mapped: Option<&Vec<StyledRange>>, theme: &Theme) -> (r: Line)
    ensures
        r@ == line_pieces(s@, code::ranges(mapped), *theme),
{
    let base: Style = Style::plain().fg(theme.foreground).bg(theme.background);
    let v: Vec<char> = text::chars_of(s);
    let total: usize = v.len();
    if total == 0 {
        let none: String = String::new();
        assert(none@ =~= Seq::<char>::empty());
        return style::single(none, base);
    }
    let ghost known_ranges: Option<Seq<StyledRange>> = code::ranges(mapped);
    let mut out: Runs = Runs::new(look_of(mapped, base, 0));
    let mut phase: usize = 0;
    let mut i: usize = 0;
    while i < total
        invariant
            i <= total == v@.len(),
            v@ == s@,
            known_ranges == code::ranges(mapped),
            out@ == shown_upto(s@, known_ranges, base, i as int).gathered,
            phase == shown_upto(s@, known_ranges, base, i as int).col % 4,
        decreases total - i,
    {
        let look: Style = look_of(mapped, base, i);
        if v[i] == '\t' {
            out = out.put_spaces(look, 4 - phase);
            phase = 0;
        } else {
            out = out.put(v[i], look);
            phase = if phase == 3 {
                0
            } else {
                phase + 1
            };
        }
        i += 1;
    }
    Line { spans: out.finish() }
}

proof fn prefix_keeps_text(s: Seq<char>, mapped: Option<Seq<StyledRange>>, base: Style, n: int)
    requires
        0 <= n <= s.len(),
        !text::has(s, '\t'),
    ensures
        runs::gathered_text(shown_upto(s, mapped, base, n).gathered) == s.take(n),
    decreases n,
{
    if n > 0 {
        prefix_keeps_text(s, mapped, base, n - 1);
        text::char_at_or_after_is_first(s, '\t', 0);
        assert(s[n - 1] != '\t');
        runs::gathering_keeps_text(
            shown_upto(s, mapped, base, n - 1).gathered,
            s[n - 1],
            look_at(mapped, base, n - 1),
        );
        assert(s.take(n) =~= s.take(n - 1).push(s[n - 1]));
    } else {
        runs::nothing_is_empty(look_at(mapped, base, 0));
        assert(s.take(0) =~= Seq::<char>::empty());
    }
}

/// A line without tabs is shown with all of its characters.
pub proof fn lines_keep_text(s: Seq<char>, mapped: Option<Seq<StyledRange>>, theme: Theme)
    requires
        !text::has(s, '\t'),
    ensures
        style::plain_text(line_pieces(s, mapped, theme)) == s,
{
    let base: Style = Style::plain().fg(theme.foreground).bg(theme.background);
    if s.len() == 0 {
        style::one_piece_text(style::piece(Seq::empty(), base));
        assert(s =~= Seq::<char>::empty());
    } else {
        prefix_keeps_text(s, mapped, base, s.len() as int);
        assert(s.take(s.len() as int) =~= s);
    }
}

/// How far the definition is scrolled.
pub open spec fn offset(view: DefinitionView, height: int) -> int {
    frames::scrolled(view.scroll as int, view.lines@.len() as int, height)
}

/// The lines that are shown.
pub open spec fn shown_lines(view: DefinitionView, a: Option<Analysis>, theme: Theme, height: int) -> Seq<
    Seq<Piece>,
> {
    let from: int = offset(view, height);
    Seq::new(
        text::min_int(text::monus(view.lines@.len() as int, from), height) as nat,
        |i: int|
            line_pieces(
                view.lines@[from + i]@,
                known(a, text::monus(view.start_line as int, 1) + from + i),
                theme,
            ),
    )
}

fn window(view: &DefinitionView, a: &Option<Analysis>, theme: &Theme, height: usize) -> (r: Vec<Line>)
    requires
        view.start_line + view.lines@.len() <= usize::MAX,
    ensures
        style::rows(r@) == shown_lines(*view, *a, *theme, height as int),
{
    let ghost want: Seq<Seq<Piece>> = shown_lines(*view, *a, *theme, height as int);
    let total: usize = view.lines.len();
    let from: usize = frames::clamp_scroll(view.scroll, total, height);
    let count: usize = text::min_of(text::minus(total, from), height);
    let first: usize = text::minus(view.start_line, 1);
    let mut out: Vec<Line> = Vec::new();
    let mut i: usize = 0;
    assert(style::rows(out@) =~= want.take(0));
    while i < count
        invariant
            i <= count,
            total == view.lines@.len(),
            from == offset(*view, height as int),
            count == text::min_int(text::monus(total as int, from as int), height as int),
            first == text::monus(view.start_line as int, 1),
            view.start_line + total <= usize::MAX,
            want == shown_lines(*view, *a, *theme, height as int),
            style::rows(out@) == want.take(i as int),
        decreases count - i,
    {
        let at: usize = from + i;
        let mapped: Option<&Vec<StyledRange>> = mapped_for_line(a, first + at);
        style::push_line(&mut out, styled_line(view.lines[at].as_str(), mapped, theme));
        i += 1;
        assert(want.take(i as int) =~= want.take(i - 1) + seq![want[i - 1]]);
    }
    assert(want.take(i as int) =~= want);
    out
}

/// The popup as it is drawn.
pub struct DefinitionPaint {
    pub title: Line,
    pub border: Style,
    pub content: Rect,
    pub lines: Vec<Line>,
    pub look: Style,
}

pub fn render(view: &DefinitionView, a: &Option<Analysis>, theme: &Theme, area: Rect) -> (r:
    DefinitionPaint)
    requires
        view.start_line + view.lines@.len() <= usize::MAX,
    ensures
        r.title@ == seq![
            style::piece(view.title@, Style::plain().fg(theme.title_focused).bold()),
        ],
        r.border == Style::plain().fg(theme.border_focused),
        r.content == geometry::inside(area),
        style::rows(r.lines@) == shown_lines(*view, *a, *theme, r.content.height as int),
        r.look == Style::plain().bg(theme.background).fg(theme.foreground),
{
    let content: Rect = geometry::inner(area);
    DefinitionPaint {
        title: style::single(
            text::copy(view.title.as_str()),
            Style::plain().fg(theme.title_focused).bold(),
        ),
        border: Style::plain().fg(theme.border_focused),
        content,
        lines: window(view, a, theme, content.height as usize),
        look: Style::plain().bg(theme.background).fg(theme.foreground),
    }
}

} // verus!
