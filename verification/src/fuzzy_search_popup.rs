//! The popup that searches files and what they hold.

use vstd::prelude::*;

use crate::file_tree_view;
use crate::frames;
use crate::geometry;
use crate::geometry::Height;
use crate::geometry::Rect;
use crate::runs;
use crate::runs::Gathered;
use crate::runs::Runs;
use crate::style;
use crate::style::Line;
use crate::style::Piece;
use crate::style::Span;
use crate::style::Style;
use crate::style::Theme;
use crate::text;

verus! {

#[derive(Clone, Copy, Debug, PartialEq, Eq, Structural)]
pub enum SearchMode {
    Files,
    Content,
}

/// A file that was found, and which characters of its path matched.
pub struct SearchResultFile {
    pub rel_path: String,
    pub matched_indices: Vec<usize>,
}

/// A line that was found, and which of its characters matched.
pub struct SearchResultMatch {
    pub rel_path: String,
    pub line: usize,
    pub col: usize,
    pub snippet: String,
    pub match_start: usize,
    pub match_len: usize,
}

pub struct FuzzySearch {
    pub mode: SearchMode,
    pub query: String,
    pub show_hidden: bool,
    pub show_ignored: bool,
    pub indexing: bool,
    pub searching: bool,
    pub status_msg: String,
    pub file_results: Vec<SearchResultFile>,
    pub match_results: Vec<SearchResultMatch>,
    pub selected: usize,
    pub scroll_offset: usize,
}

/// A file as it is previewed, and the line that the preview is about.
pub struct PreviewModel {
    pub lines: Vec<Line>,
    pub anchor_line: usize,
    pub truncated: bool,
}

/// The larger of two sizes.
pub open spec fn larger(a: u16, b: u16) -> u16 {
    if a >= b {
        a
    } else {
        b
    }
}

fn larger_of(a: u16, b: u16) -> (r: u16)
    ensures
        r == larger(a, b),
{
    if a >= b {
        a
    } else {
        b
    }
}

/// The width and height of the popup on a screen, which it never leaves.
pub fn preferred_size(screen: Rect) -> (r: (u16, u16))
    ensures
        r.0 == geometry::smaller(larger(geometry::share(screen.width, 80), 68), screen.width),
        r.1 == geometry::smaller(larger(geometry::share(screen.height, 76), 22), screen.height),
        r.0 <= screen.width,
        r.1 <= screen.height,
{
    (
        geometry::smaller_of(larger_of(geometry::share_of(screen.width, 80), 68), screen.width),
        geometry::smaller_of(larger_of(geometry::share_of(screen.height, 76), 22), screen.height),
    )
}

/// How many results there are.
pub open spec fn result_count(f: FuzzySearch) -> nat {
    match f.mode {
        SearchMode::Files => f.file_results@.len(),
        SearchMode::Content => f.match_results@.len(),
    }
}

/// What is said of the search.
pub open spec fn status(f: FuzzySearch) -> Seq<char> {
    if f.status_msg@.len() > 0 {
        f.status_msg@
    } else {
        text::decimal(result_count(f)) + " results"@
    }
}

/// The first line of the popup.
pub open spec fn header(f: FuzzySearch, theme: Theme) -> Seq<Piece> {
    seq![
        style::piece(
            match f.mode {
                SearchMode::Files => "[FILES]"@,
                SearchMode::Content => "[CONTENT]"@,
            },
            Style::plain().fg(theme.title).bold(),
        ),
        style::piece("  > "@, Style::plain().fg(theme.border).dim()),
        style::piece(f.query@, Style::plain().fg(theme.foreground)),
        style::piece(
            "  "@ + status(f) + "  hidden:"@ + file_tree_view::switch(f.show_hidden)
                + " ignored:"@ + file_tree_view::switch(f.show_ignored),
            if f.indexing || f.searching {
                Style::plain().fg(theme.warning).bold()
            } else {
                Style::plain().fg(theme.foreground)
            },
        ),
    ]
}

pub fn header_line(f: &FuzzySearch, theme: &Theme) -> (r: Line)
    ensures
        r@ == header(*f, *theme),
{
    let (mode, results): (&str, usize) = match f.mode {
        SearchMode::Files => ("[FILES]", f.file_results.len()),
        SearchMode::Content => ("[CONTENT]", f.match_results.len()),
    };
    let told: String = if text::length(f.status_msg.as_str()) > 0 {
        text::copy(f.status_msg.as_str())
    } else {
        let count: String = text::decimal_usize(results);
        text::cat2(count.as_str(), " results")
    };
    let end: String = text::cat6(
        "  ",
        told.as_str(),
        "  hidden:",
        file_tree_view::on_off(f.show_hidden),
        " ignored:",
        file_tree_view::on_off(f.show_ignored),
    );
    let spans: Vec<Span> = vec![
        style::span(mode, Style::plain().fg(theme.title).bold()),
        style::span("  > ", Style::plain().fg(theme.border).dim()),
        style::span(f.query.as_str(), Style::plain().fg(theme.foreground)),
        style::styled(
            end,
            if f.indexing || f.searching {
                Style::plain().fg(theme.warning).bold()
            } else {
                Style::plain().fg(theme.foreground)
            },
        ),
    ];
    let r: Line = Line { spans };
    assert(r@ =~= header(*f, *theme));
    r
}

/// From where on results are shown, and which is selected: one that is there, and that is shown.
pub open spec fn scrolled(len: int, scroll: int, selected: int, height: int) -> (int, int) {
    if len == 0 || height == 0 {
        (0, 0)
    } else {
        let chosen: int = text::min_int(selected, len - 1);
        let from: int = text::min_int(scroll, len - 1);
        let moved: int = if chosen < from {
            chosen
        } else if chosen >= from + height {
            chosen - (height - 1)
        } else {
            from
        };
        (text::min_int(moved, text::monus(len, height)), chosen)
    }
}

pub fn scroll_state(len: usize, scroll: usize, selected: usize, height: usize) -> (r: (usize, usize))
    ensures
        (r.0 as int, r.1 as int) == scrolled(
            len as int,
            scroll as int,
            selected as int,
            height as int,
        ),
{
    if len == 0 || height == 0 {
        return (0, 0);
    }
    let chosen: usize = text::min_of(selected, len - 1);
    let from: usize = text::min_of(scroll, len - 1);
    let moved: usize = if chosen < from {
        chosen
    } else if chosen - from >= height {
        chosen - (height - 1)
    } else {
        from
    };
    (text::min_of(moved, text::minus(len, height)), chosen)
}

/// The selected result is there and is shown, and no room is left empty that a result could take.
pub proof fn selection_is_shown(len: int, scroll: int, selected: int, height: int)
    requires
        0 < len,
        0 < height,
        0 <= scroll,
        0 <= selected,
    ensures
        ({
            let (from, chosen): (int, int) = scrolled(len, scroll, selected, height);
            &&& 0 <= from <= chosen < from + height
            &&& chosen < len
            &&& selected < len ==> chosen == selected
            &&& from + height <= len || from == 0
        }),
{
}

/// The style of a row.
pub open spec fn row_style(selected: bool, theme: Theme) -> Style {
    let base: Style = Style::plain().fg(theme.foreground).bg(theme.background);
    if selected {
        base.bg(theme.selection_bg).bold()
    } else {
        base
    }
}

/// The background of a row.
pub open spec fn row_bg(selected: bool, theme: Theme) -> style::Color {
    if selected {
        theme.selection_bg
    } else {
        theme.background
    }
}

/// The mark before a row.
pub open spec fn row_mark(selected: bool) -> Seq<char> {
    if selected {
        "› "@
    } else {
        "  "@
    }
}

/// The style of the character at `i` of a path.
pub open spec fn hit_style(f: SearchResultFile, i: int, selected: bool, theme: Theme) -> Style {
    if exists|k: int| 0 <= k < f.matched_indices@.len() && #[trigger] f.matched_indices@[k] == i {
        Style::plain().fg(theme.accent).bg(row_bg(selected, theme)).bold()
    } else {
        row_style(selected, theme)
    }
}

/// The first `n` characters of a path.
pub open spec fn path_upto(f: SearchResultFile, selected: bool, theme: Theme, n: int) -> Gathered
    decreases n,
{
    if n <= 0 {
        runs::nothing(row_style(selected, theme))
    } else {
        runs::with(
            path_upto(f, selected, theme, n - 1),
            f.rel_path@[n - 1],
            hit_style(f, n - 1, selected, theme),
        )
    }
}

/// A file that was found, in its row.
pub open spec fn file_row(f: SearchResultFile, selected: bool, theme: Theme) -> Seq<Piece> {
    seq![style::piece(row_mark(selected), row_style(selected, theme))] + (
    if f.matched_indices@.len() == 0 {
        seq![style::piece(f.rel_path@, row_style(selected, theme))]
    } else {
        runs::all_pieces(path_upto(f, selected, theme, f.rel_path@.len() as int))
    })
}

fn is_hit(f: &SearchResultFile, i: usize) -> (r: bool)
    ensures
        r == (exists|k: int|
            0 <= k < f.matched_indices@.len() && #[trigger] f.matched_indices@[k] == i),
{
    let mut k: usize = 0;
    while k < f.matched_indices.len()
        invariant
            k <= f.matched_indices@.len(),
            forall|j: int| 0 <= j < k ==> #[trigger] f.matched_indices@[j] != i,
        decreases f.matched_indices@.len() - k,
    {
        if f.matched_indices[k] == i {
            assert(f.matched_indices@[k as int] == i);
            return true;
        }
        k += 1;
    }
    false
}

fn style_of_row(selected: bool, theme: &Theme) -> (r: Style)
    ensures
        r == row_style(selected, *theme),
{
    let base: Style = Style::plain().fg(theme.foreground).bg(theme.background);
    if selected {
        base.bg(theme.selection_bg).bold()
    } else {
        base
    }
}

fn marked_row(selected: bool, look: Style, rest: Vec<Span>) -> (r: Line)
    ensures
        r@ == seq![style::piece(row_mark(selected), look)] + style::pieces(rest@),
{
    let mark: &str = if selected {
        "› "
    } else {
        "  "
    };
    let mut spans: Vec<Span> = vec![style::span(mark, look)];
    let mut more: Vec<Span> = rest;
    spans.append(&mut more);
    let r: Line = Line { spans };
    assert(r@ =~= seq![style::piece(row_mark(selected), look)] + style::pieces(rest@));
    r
}

pub fn render_file_row(f: &SearchResultFile, selected: bool, theme: &Theme) -> (r: Line)
    ensures
        r@ == file_row(*f, selected, *theme),
{
    let look: Style = style_of_row(selected, theme);
    if f.matched_indices.len() == 0 {
        let rest: Vec<Span> = vec![style::span(f.rel_path.as_str(), look)];
        assert(style::pieces(rest@) =~= seq![style::piece(f.rel_path@, look)]);
        return marked_row(selected, look, rest);
    }
    let hit: Style = Style::plain().fg(theme.accent).bg(
        if selected {
            theme.selection_bg
        } else {
            theme.background
        },
    ).bold();
    let v: Vec<char> = text::chars_of(f.rel_path.as_str());
    let total: usize = v.len();
    let mut out: Runs = Runs::new(look);
    let mut i: usize = 0;
    while i < total
        invariant
            i <= total == v@.len(),
            v@ == f.rel_path@,
            look == row_style(selected, *theme),
            hit == Style::plain().fg(theme.accent).bg(row_bg(selected, *theme)).bold(),
            out@ == path_upto(*f, selected, *theme, i as int),
        decreases total - i,
    {
        let one: Style = if is_hit(f, i) {
            hit
        } else {
            look
        };
        out = out.put(v[i], one);
        i += 1;
    }
    marked_row(selected, look, out.finish())
}

proof fn path_keeps_text(f: SearchResultFile, selected: bool, theme: Theme, n: int)
    requires
        0 <= n <= f.rel_path@.len(),
    ensures
        runs::gathered_text(path_upto(f, selected, theme, n)) == f.rel_path@.take(n),
    decreases n,
{
    if n > 0 {
        path_keeps_text(f, selected, theme, n - 1);
        runs::gathering_keeps_text(
            path_upto(f, selected, theme, n - 1),
            f.rel_path@[n - 1],
            hit_style(f, n - 1, selected, theme),
        );
        assert(f.rel_path@.take(n) =~= f.rel_path@.take(n - 1).push(f.rel_path@[n - 1]));
    } else {
        runs::nothing_is_empty(row_style(selected, theme));
        assert(f.rel_path@.take(0) =~= Seq::<char>::empty());
    }
}

/// A file is shown with its whole path, whatever of it matches.
pub proof fn file_rows_keep_text(f: SearchResultFile, selected: bool, theme: Theme)
    ensures
        style::plain_text(file_row(f, selected, theme)) == row_mark(selected) + f.rel_path@,
{
    let look: Style = row_style(selected, theme);
    let n: int = f.rel_path@.len() as int;
    let front: Seq<Piece> = seq![style::piece(row_mark(selected), look)];
    one_piece(row_mark(selected), look);
    one_piece(f.rel_path@, look);
    path_keeps_text(f, selected, theme, n);
    assert(f.rel_path@.take(n) =~= f.rel_path@);
    let rest: Seq<Piece> = if f.matched_indices@.len() == 0 {
        seq![style::piece(f.rel_path@, look)]
    } else {
        runs::all_pieces(path_upto(f, selected, theme, n))
    };
    style::plain_text_add(front, rest);
}

/// A text with the characters from `from` to `to` in another style.
pub open spec fn split_pieces(s: Seq<char>, from: int, to: int, base: Style, other: Style) -> Seq<Piece> {
    if from >= to {
        seq![style::piece(s, base)]
    } else {
        let rest: Seq<char> = text::tail(s, from);
        style::if_any(text::head(s, from), base) + style::if_any(
            text::head(rest, to - from),
            other,
        ) + style::if_any(text::tail(rest, to - from), base)
    }
}

pub fn split_snippet_spans(s: &str, from: usize, to: usize, base: Style, other: Style) -> (r: Vec<
    Span,
>)
    ensures
        style::pieces(r@) == split_pieces(s@, from as int, to as int, base, other),
{
    broadcast use {style::group_lines, style::group_piece_lists};

    if from >= to {
        let r: Vec<Span> = vec![style::span(s, base)];
        assert(style::pieces(r@) =~= seq![style::piece(s@, base)]);
        return r;
    }
    let left: String = text::head_of(s, from);
    let rest: String = text::tail_of(s, from);
    let mid: String = text::head_of(rest.as_str(), to - from);
    let right: String = text::tail_of(rest.as_str(), to - from);
    let ghost first: Seq<Piece> = style::if_any(left@, base);
    let mut spans: Vec<Span> = Vec::new();
    assert(style::pieces(spans@) =~= Seq::<Piece>::empty());
    style::push_if_any(&mut spans, left, base);
    assert(style::pieces(spans@) =~= first);
    style::push_if_any(&mut spans, mid, other);
    style::push_if_any(&mut spans, right, base);
    spans
}

/// A line that was found, in its row.
pub open spec fn match_row(m: SearchResultMatch, selected: bool, theme: Theme) -> Seq<Piece> {
    let len: int = m.snippet@.len() as int;
    let bg: style::Color = row_bg(selected, theme);
    seq![style::piece(row_mark(selected), row_style(selected, theme))] + (seq![
        style::piece(
            m.rel_path@ + ":"@ + text::decimal(m.line as nat) + ":"@ + text::decimal(m.col as nat)
                + "  "@,
            Style::plain().fg(theme.border).bg(bg).dim(),
        ),
    ] + split_pieces(
        m.snippet@,
        text::min_int(m.match_start as int, len),
        text::min_int(m.match_start + m.match_len, len),
        row_style(selected, theme),
        Style::plain().fg(theme.accent).bg(bg).bold().underlined(),
    ))
}

pub fn render_match_row(m: &SearchResultMatch, selected: bool, theme: &Theme) -> (r: Line)
    ensures
        r@ == match_row(*m, selected, *theme),
{
    let look: Style = style_of_row(selected, theme);
    let bg: style::Color = if selected {
        theme.selection_bg
    } else {
        theme.background
    };
    let len: usize = text::length(m.snippet.as_str());
    let from: usize = text::min_of(m.match_start, len);
    let to: usize = text::min_of(m.match_start.saturating_add(m.match_len), len);
    let line: String = text::decimal_usize(m.line);
    let col: String = text::decimal_usize(m.col);
    let place: String = text::cat6(
        m.rel_path.as_str(),
        ":",
        line.as_str(),
        ":",
        col.as_str(),
        "  ",
    );
    let ghost told: Seq<char> = place@;
    let mut spans: Vec<Span> = vec![
        style::styled(place, Style::plain().fg(theme.border).bg(bg).dim()),
    ];
    assert(style::pieces(spans@) =~= seq![
        style::piece(told, Style::plain().fg(theme.border).bg(bg).dim()),
    ]);
    let mut more: Vec<Span> = split_snippet_spans(
        m.snippet.as_str(),
        from,
        to,
        look,
        Style::plain().fg(theme.accent).bg(bg).bold().underlined(),
    );
    let ghost first: Seq<Span> = spans@;
    let ghost second: Seq<Span> = more@;
    spans.append(&mut more);
    assert(style::pieces(spans@) =~= style::pieces(first) + style::pieces(second));
    marked_row(selected, look, spans)
}

proof fn one_piece(s: Seq<char>, look: Style)
    ensures
        style::plain_text(seq![style::piece(s, look)]) == s,
        style::plain_text(style::if_any(s, look)) == s,
{
    let none: Seq<Piece> = Seq::empty();
    style::plain_text_push(none, style::piece(s, look));
    assert(none.push(style::piece(s, look)) =~= seq![style::piece(s, look)]);
    assert(style::plain_text(seq![style::piece(s, look)]) =~= s);
    assert(style::plain_text(style::if_any(s, look)) =~= s);
}

proof fn splitting_keeps_text(s: Seq<char>, from: int, to: int, base: Style, other: Style)
    requires
        0 <= from <= s.len(),
        0 <= to <= s.len(),
    ensures
        style::plain_text(split_pieces(s, from, to, base, other)) == s,
{
    if from >= to {
        one_piece(s, base);
    } else {
        let rest: Seq<char> = text::tail(s, from);
        let a: Seq<char> = text::head(s, from);
        let b: Seq<char> = text::head(rest, to - from);
        let c: Seq<char> = text::tail(rest, to - from);
        one_piece(a, base);
        one_piece(b, other);
        one_piece(c, base);
        style::plain_text_add(style::if_any(a, base), style::if_any(b, other));
        style::plain_text_add(
            style::if_any(a, base) + style::if_any(b, other),
            style::if_any(c, base),
        );
        assert(a + b + c =~= s);
    }
}

/// A line that was found is shown whole, behind its place.
pub proof fn match_rows_keep_text(m: SearchResultMatch, selected: bool, theme: Theme)
    ensures
        style::plain_text(match_row(m, selected, theme)) == row_mark(selected) + (m.rel_path@ + ":"@
            + text::decimal(m.line as nat) + ":"@ + text::decimal(m.col as nat) + "  "@
            + m.snippet@),
{
    let len: int = m.snippet@.len() as int;
    let bg: style::Color = row_bg(selected, theme);
    let look: Style = row_style(selected, theme);
    let dim: Style = Style::plain().fg(theme.border).bg(bg).dim();
    let hit: Style = Style::plain().fg(theme.accent).bg(bg).bold().underlined();
    let place: Seq<char> = m.rel_path@ + ":"@ + text::decimal(m.line as nat) + ":"@
        + text::decimal(m.col as nat) + "  "@;
    let from: int = text::min_int(m.match_start as int, len);
    let to: int = text::min_int(m.match_start + m.match_len, len);
    one_piece(row_mark(selected), look);
    one_piece(place, dim);
    splitting_keeps_text(m.snippet@, from, to, look, hit);
    let front: Seq<Piece> = seq![style::piece(place, dim)];
    let rest: Seq<Piece> = split_pieces(m.snippet@, from, to, look, hit);
    style::plain_text_add(front, rest);
    style::plain_text_add(seq![style::piece(row_mark(selected), look)], front + rest);
}

/// A result in its row.
pub open spec fn result_row(f: FuzzySearch, i: int, selected: bool, theme: Theme) -> Seq<Piece> {
    match f.mode {
        SearchMode::Files => file_row(f.file_results@[i], selected, theme),
        SearchMode::Content => match_row(f.match_results@[i], selected, theme),
    }
}

/// The results that are shown.
pub open spec fn result_rows(f: FuzzySearch, theme: Theme, height: int) -> Seq<Seq<Piece>> {
    let total: int = result_count(f) as int;
    let (from, chosen): (int, int) = scrolled(
        total,
        f.scroll_offset as int,
        f.selected as int,
        height,
    );
    if height <= 0 {
        Seq::empty()
    } else if total == 0 {
        seq![seq![style::piece("No matches."@, Style::plain().fg(theme.border).dim())]]
    } else {
        Seq::new(
            (text::min_int(from + height, total) - from) as nat,
            |i: int| result_row(f, from + i, from + i == chosen, theme),
        )
    }
}

pub fn result_lines(f: &FuzzySearch, theme: &Theme, height: usize) -> (r: Vec<Line>)
    ensures
        style::rows(r@) == result_rows(*f, *theme, height as int),
{
    let ghost want: Seq<Seq<Piece>> = result_rows(*f, *theme, height as int);
    let mut out: Vec<Line> = Vec::new();
    if height == 0 {
        assert(style::rows(out@) =~= want);
        return out;
    }
    let total: usize = match f.mode {
        SearchMode::Files => f.file_results.len(),
        SearchMode::Content => f.match_results.len(),
    };
    if total == 0 {
        style::push_line(
            &mut out,
            style::single(text::copy("No matches."), Style::plain().fg(theme.border).dim()),
        );
        assert(style::rows(out@) =~= want);
        return out;
    }
    let (from, chosen): (usize, usize) = scroll_state(total, f.scroll_offset, f.selected, height);
    proof {
        selection_is_shown(
            total as int,
            f.scroll_offset as int,
            f.selected as int,
            height as int,
        );
    }
    let end: usize = text::min_of(from.saturating_add(height), total);
    let mut i: usize = from;
    assert(style::rows(out@) =~= want.take(0));
    while i < end
        invariant
            from <= i <= end,
            end <= total,
            total > 0,
            height > 0,
            total == result_count(*f),
            end == text::min_int(from + height, total as int),
            (from as int, chosen as int) == scrolled(
                total as int,
                f.scroll_offset as int,
                f.selected as int,
                height as int,
            ),
            want == result_rows(*f, *theme, height as int),
            style::rows(out@) == want.take(i - from),
        decreases end - i,
    {
        let line: Line = match f.mode {
            SearchMode::Files => render_file_row(&f.file_results[i], i == chosen, theme),
            SearchMode::Content => render_match_row(&f.match_results[i], i == chosen, theme),
        };
        style::push_line(&mut out, line);
        i += 1;
        assert(want.take(i - from) =~= want.take(i - from - 1) + seq![want[i - from - 1]]);
    }
    assert(want.take(i - from) =~= want);
    out
}

/// From which line on a file is previewed: so that the line it is about stands at a third of the
/// height, moved as the user asked, and within the file.
pub open spec fn preview_from(lines: int, anchor: int, height: int, delta: int) -> int {
    let most: int = text::monus(lines, text::max_int(height, 1));
    let moved: int = text::min_int(text::monus(anchor, height / 3), most) + delta;
    text::max_int(text::min_int(moved, most), 0)
}

pub fn preview_scroll(lines: usize, anchor: usize, height: usize, delta: i32) -> (r: usize)
    ensures
        r == preview_from(lines as int, anchor as int, height as int, delta as int),
{
    let most: usize = text::minus(lines, text::max_of(height, 1));
    let base: usize = text::min_of(text::minus(anchor, height / 3), most);
    let moved: i128 = base as i128 + delta as i128;
    if moved < 0 {
        0
    } else if moved > most as i128 {
        most
    } else {
        moved as usize
    }
}

/// The preview as it is drawn.
pub struct PreviewPaint {
    pub inner: Rect,
    pub title: String,
    pub lines: Vec<Line>,
    pub scroll: u16,
}

/// Whether the preview is drawn.
pub open spec fn draws_preview(
    r: PreviewPaint,
    preview: Option<PreviewModel>,
    delta: i32,
    theme: Theme,
) -> bool {
    match preview {
        Some(m) => {
            &&& r.title@ == (if m.truncated {
                " PREVIEW [truncated] "@
            } else {
                " PREVIEW "@
            })
            &&& r.lines == m.lines
            &&& r.scroll == preview_from(
                m.lines@.len() as int,
                m.anchor_line as int,
                r.inner.height as int,
                delta as int,
            ) % 0x10000
        },
        None => {
            &&& r.title@ == " PREVIEW "@
            &&& style::rows(r.lines@) == seq![
                seq![style::piece("Loading preview..."@, Style::plain().fg(theme.border).dim())],
            ]
            &&& r.scroll == 0
        },
    }
}

pub fn preview_paint(preview: Option<PreviewModel>, delta: i32, theme: &Theme, inner: Rect) -> (r:
    PreviewPaint)
    ensures
        r.inner == inner,
        draws_preview(r, preview, delta, *theme),
{
    match preview {
        Some(m) => {
            let scroll: usize = preview_scroll(
                m.lines.len(),
                m.anchor_line,
                inner.height as usize,
                delta,
            );
            PreviewPaint {
                inner,
                title: text::copy(
                    if m.truncated {
                        " PREVIEW [truncated] "
                    } else {
                        " PREVIEW "
                    },
                ),
                lines: m.lines,
                scroll: frames::low_sixteen(scroll),
            }
        },
        None => {
            let lines: Vec<Line> = vec![
                style::single(
                    text::copy("Loading preview..."),
                    Style::plain().fg(theme.border).dim(),
                ),
            ];
            assert(style::rows(lines@) =~= seq![
                seq![style::piece("Loading preview..."@, Style::plain().fg(theme.border).dim())],
            ]);
            PreviewPaint { inner, title: text::copy(" PREVIEW "), lines, scroll: 0 }
        },
    }
}

/// The popup as it is drawn: a line above, the results beside the preview, a line below.
pub struct SearchPaint {
    pub title: Line,
    pub border: Style,
    pub header_area: Rect,
    pub header: Line,
    pub body_area: Rect,
    pub results_area: Rect,
    pub results: Vec<Line>,
    pub preview_area: Rect,
    pub preview: PreviewPaint,
    pub footer_area: Rect,
    pub footer: Line,
}

/// The last line of the popup.
pub open spec fn footer(theme: Theme) -> Seq<Piece> {
    seq![
        style::piece(
            "Enter open  Esc close  Tab mode  ↑↓ list  Ctrl+J/K list  Ctrl+↑/↓ preview  F2 hidden  F3 ignored  F5 refresh"@,
            Style::plain().fg(theme.border).dim(),
        ),
    ]
}

pub fn render(
    f: &FuzzySearch,
    theme: &Theme,
    preview: Option<PreviewModel>,
    delta: i32,
    area: Rect,
) -> (r: SearchPaint)
    ensures
        r.title@ == seq![
            style::piece(
                " NIT FUZZY SEARCH "@,
                Style::plain().fg(theme.title_focused).bold(),
            ),
        ],
        r.border == Style::plain().fg(theme.border),
        r.header@ == header(*f, *theme),
        r.footer@ == footer(*theme),
        style::rows(r.results@) == result_rows(
            *f,
            *theme,
            geometry::inside(r.results_area).height as int,
        ),
        r.preview.inner == geometry::inside(r.preview_area),
        draws_preview(r.preview, preview, delta, *theme),
        geometry::divides(
            geometry::inside(area),
            seq![Height::Exactly(1), Height::AtLeast(1), Height::Exactly(1)],
            seq![r.header_area, r.body_area, r.footer_area],
        ),
        geometry::halves_of(r.body_area, seq![r.results_area, r.preview_area]),
{
    let inner: Rect = geometry::inner(area);
    let heights: Vec<Height> = vec![Height::Exactly(1), Height::AtLeast(1), Height::Exactly(1)];
    assert(heights@ =~= seq![Height::Exactly(1), Height::AtLeast(1), Height::Exactly(1)]);
    let parts: Vec<Rect> = geometry::split_rows(inner, &heights);
    let halves: Vec<Rect> = geometry::split_halves(parts[1]);
    assert(parts@ =~= seq![parts@[0], parts@[1], parts@[2]]);
    assert(halves@ =~= seq![halves@[0], halves@[1]]);
    let results_inner: Rect = geometry::inner(halves[0]);
    SearchPaint {
        title: style::single(
            text::copy(" NIT FUZZY SEARCH "),
            Style::plain().fg(theme.title_focused).bold(),
        ),
        border: Style::plain().fg(theme.border),
        header_area: parts[0],
        header: header_line(f, theme),
        body_area: parts[1],
        results_area: halves[0],
        results: result_lines(f, theme, results_inner.height as usize),
        preview_area: halves[1],
        preview: preview_paint(preview, delta, theme, geometry::inner(halves[1])),
        footer_area: parts[2],
        footer: style::single(
            text::copy(
                "Enter open  Esc close  Tab mode  ↑↓ list  Ctrl+J/K list  Ctrl+↑/↓ preview  F2 hidden  F3 ignored  F5 refresh",
            ),
            Style::plain().fg(theme.border).dim(),
        ),
    }
}

} // verus!
