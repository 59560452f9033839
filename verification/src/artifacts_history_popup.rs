//! The popup that lists the artifacts of all archived runs.

use vstd::prelude::*;

use crate::agent_ops_view::archive::GlobalArchiveEntry;
use crate::agent_ops_view::history;
use crate::counting;
use crate::fit;
use crate::frames;
use crate::geometry;
use crate::geometry::Rect;
use crate::state::SavedRunHistoryFilter;
use crate::style;
use crate::style::Color;
use crate::style::Line;
use crate::style::Piece;
use crate::style::Span;
use crate::style::Style;
use crate::style::Theme;
use crate::text;

verus! {

/// The archive, and what is searched for in it.
pub struct ArchiveList {
    pub index: Vec<GlobalArchiveEntry>,
    /// What was found, in the order in which it is listed: how well it fits, and its place in
    /// `index`.
    pub filtered: Vec<(i64, usize)>,
    pub query: String,
    pub filter: SavedRunHistoryFilter,
    pub selected: usize,
    pub scroll: usize,
}

/// The width and height of the popup on a screen.
pub fn preferred_size(screen: Rect) -> (r: (u16, u16))
    ensures
        r.0 == geometry::smaller(
            geometry::between(geometry::share(screen.width, 80), 80, 140),
            screen.width,
        ),
        r.1 == geometry::smaller(
            geometry::between(geometry::share(screen.height, 65), 14, 36),
            screen.height,
        ),
{
    (
        geometry::smaller_of(
            geometry::keep_between(geometry::share_of(screen.width, 80), 80, 140),
            screen.width,
        ),
        geometry::smaller_of(
            geometry::keep_between(geometry::share_of(screen.height, 65), 14, 36),
            screen.height,
        ),
    )
}

/// The label of a kind, and its color.
pub open spec fn kind_look(kind: Seq<char>, theme: Theme) -> (Seq<char>, Color) {
    if kind == "PROMPT"@ {
        ("PROMPT  "@, theme.border)
    } else if kind == "REPLY"@ {
        ("REPLY   "@, theme.success)
    } else if kind == "SYNTH"@ {
        ("SYNTH   "@, theme.accent)
    } else if kind == "PLAN"@ {
        ("PLAN    "@, theme.title)
    } else if kind == "PATCH"@ {
        ("PATCH   "@, theme.warning)
    } else if kind == "EVIDENCE"@ {
        ("EVIDENCE"@, theme.title_focused)
    } else {
        ("OTHER   "@, theme.border)
    }
}

pub fn kind_label_and_color(kind: &str, theme: &Theme) -> (r: (&'static str, Color))
    ensures
        (r.0@, r.1) == kind_look(kind@, *theme),
{
    if text::str_eq(kind, "PROMPT") {
        ("PROMPT  ", theme.border)
    } else if text::str_eq(kind, "REPLY") {
        ("REPLY   ", theme.success)
    } else if text::str_eq(kind, "SYNTH") {
        ("SYNTH   ", theme.accent)
    } else if text::str_eq(kind, "PLAN") {
        ("PLAN    ", theme.title)
    } else if text::str_eq(kind, "PATCH") {
        ("PATCH   ", theme.warning)
    } else if text::str_eq(kind, "EVIDENCE") {
        ("EVIDENCE", theme.title_focused)
    } else {
        ("OTHER   ", theme.border)
    }
}

/// Tells what was found and is still there.
pub open spec fn is_there(list: ArchiveList) -> spec_fn(int) -> bool {
    |k: int| list.filtered@[k].1 < list.index@.len()
}

/// The places of what was found and is still there, in the order in which it is listed.
pub open spec fn listed(list: ArchiveList) -> Seq<int> {
    counting::picked(list.filtered@.len() as int, is_there(list))
}

/// Which of the artifacts that were found a line stands for.
pub open spec fn entry_on(list: ArchiveList, line: int) -> Option<int> {
    if 4 <= line < 4 + listed(list).len() {
        Some(listed(list)[line - 4])
    } else {
        None
    }
}

pub fn entry_index_for_line(list: &ArchiveList, line_idx: usize) -> (r: Option<usize>)
    ensures
        match r {
            Some(k) => entry_on(*list, line_idx as int) == Some(k as int),
            None => entry_on(*list, line_idx as int) is None,
        },
{
    if line_idx < 4 {
        return None;
    }
    let ghost meets = is_there(*list);
    let found: usize = list.filtered.len();
    let mut before: usize = 0;
    let mut i: usize = 0;
    while i < found
        invariant
            4 <= line_idx,
            i <= found == list.filtered@.len(),
            meets == is_there(*list),
            before <= i,
            before == counting::picked(i as int, meets).len(),
            before <= line_idx - 4,
        decreases found - i,
    {
        let here: bool = list.filtered[i].1 < list.index.len();
        assert(here == meets(i as int));
        if here {
            if before == line_idx - 4 {
                proof {
                    counting::picked_goes_on(i + 1, found as int, meets, before as int);
                }
                return Some(i);
            }
            before += 1;
        }
        i += 1;
    }
    None
}

/// How many lines the popup has: one for everything that was found and is still there.
pub open spec fn lines_in(list: ArchiveList) -> int {
    let found: int = list.filtered@.len() as int;
    4 + counting::counted(found, is_there(list)) + (if found == 0 {
        2int
    } else {
        0
    }) + 2
}

pub fn line_count(list: &ArchiveList) -> (r: usize)
    requires
        lines_in(*list) <= usize::MAX,
    ensures
        r == lines_in(*list),
{
    let found: usize = list.filtered.len();
    if found == 0 {
        return 8;
    }
    let ghost meets = is_there(*list);
    let mut shown: usize = 0;
    let mut i: usize = 0;
    while i < found
        invariant
            i <= found == list.filtered@.len(),
            meets == is_there(*list),
            shown <= i,
            shown == counting::counted(i as int, meets),
        decreases found - i,
    {
        let here: bool = list.filtered[i].1 < list.index.len();
        assert(here == meets(i as int));
        if here {
            shown += 1;
        }
        i += 1;
    }
    shown + 6
}

/// The styles of the popup.
#[derive(Clone, Copy, Debug, PartialEq, Eq, Structural)]
pub struct PopupStyles {
    pub label: Style,
    pub value: Style,
    pub dim: Style,
    pub selected: Style,
    pub prompt: Style,
    pub cursor: Style,
}

#[verifier::allow_in_spec]
pub fn styles_of(theme: Theme) -> PopupStyles
    returns
        (PopupStyles {
            label: Style::plain().fg(theme.title).dim(),
            value: Style::plain().fg(theme.foreground),
            dim: Style::plain().fg(theme.border).dim(),
            selected: Style::plain().fg(theme.foreground).bg(theme.selection_bg).bold(),
            prompt: Style::plain().fg(theme.title_focused).bold(),
            cursor: Style::plain().fg(theme.background).bg(theme.foreground),
        }),
{
    PopupStyles {
        label: Style::plain().fg(theme.title).dim(),
        value: Style::plain().fg(theme.foreground),
        dim: Style::plain().fg(theme.border).dim(),
        selected: Style::plain().fg(theme.foreground).bg(theme.selection_bg).bold(),
        prompt: Style::plain().fg(theme.title_focused).bold(),
        cursor: Style::plain().fg(theme.background).bg(theme.foreground),
    }
}

pub open spec fn search_pieces(query: Seq<char>, s: PopupStyles) -> Seq<Piece> {
    if query.len() == 0 {
        seq![
            style::piece(" / "@, s.prompt),
            style::piece(" "@, s.cursor),
            style::piece(" type to search..."@, s.dim),
        ]
    } else {
        seq![
            style::piece(" / "@, s.prompt),
            style::piece(query, s.value),
            style::piece(" "@, s.cursor),
        ]
    }
}

pub fn search_bar_line(query: &str, s: &PopupStyles) -> (r: Line)
    ensures
        r@ == search_pieces(query@, *s),
{
    let spans: Vec<Span> = if text::length(query) == 0 {
        vec![
            style::span(" / ", s.prompt),
            style::span(" ", s.cursor),
            style::span(" type to search...", s.dim),
        ]
    } else {
        vec![
            style::span(" / ", s.prompt),
            style::span(query, s.value),
            style::span(" ", s.cursor),
        ]
    };
    let r: Line = Line { spans };
    assert(r@ =~= search_pieces(query@, *s));
    r
}

pub open spec fn status_pieces(filter: Seq<char>, total: nat, matching: nat, s: PopupStyles) -> Seq<
    Piece,
> {
    seq![
        style::piece("filter: "@, s.label),
        style::piece(filter, s.value),
        style::piece("  |  "@, s.dim),
        style::piece(text::decimal(total) + " artifacts"@, s.value),
        style::piece("  |  "@, s.dim),
        style::piece(text::decimal(matching) + " matching"@, s.value),
    ]
}

pub fn status_line(filter: &str, total: usize, matching: usize, s: &PopupStyles) -> (r: Line)
    ensures
        r@ == status_pieces(filter@, total as nat, matching as nat, *s),
{
    let all: String = text::decimal_usize(total);
    let found: String = text::decimal_usize(matching);
    let spans: Vec<Span> = vec![
        style::span("filter: ", s.label),
        style::span(filter, s.value),
        style::span("  |  ", s.dim),
        style::styled(text::cat2(all.as_str(), " artifacts"), s.value),
        style::span("  |  ", s.dim),
        style::styled(text::cat2(found.as_str(), " matching"), s.value),
    ];
    let r: Line = Line { spans };
    assert(r@ =~= status_pieces(filter@, total as nat, matching as nat, *s));
    r
}

/// A text in its column, behind a space.
pub open spec fn cell(s: Seq<char>, width: int) -> Seq<char> {
    " "@ + fit::at_least(fit::truncated(s, width), width)
}

pub fn padded_cell(s: &str, width: usize) -> (r: String)
    ensures
        r@ == cell(s@, width as int),
{
    let cut: String = fit::truncate_label(s, width);
    let padded: String = fit::pad_end(cut.as_str(), width);
    text::cat2(" ", padded.as_str())
}

/// An artifact in its line.
pub open spec fn entry_pieces(
    e: GlobalArchiveEntry,
    selected: bool,
    preview_w: int,
    theme: Theme,
) -> Seq<Piece> {
    let s: PopupStyles = styles_of(theme);
    let base: Style = if selected {
        s.selected
    } else {
        s.value
    };
    let tag: Style = if selected {
        s.selected
    } else {
        s.dim
    };
    let look: (Seq<char>, Color) = kind_look(e.kind@, theme);
    seq![
        style::piece(
            if selected {
                "> "@
            } else {
                "  "@
            },
            base,
        ),
        style::piece(
            if e.kind@ == "PROMPT"@ {
                "  "@
            } else {
                "↳ "@
            },
            tag,
        ),
        style::piece(
            look.0,
            if selected {
                s.selected
            } else {
                Style::plain().fg(look.1)
            },
        ),
        style::piece(cell(e.owner@, 30), base),
        style::piece(cell(e.time_label@, 14), tag),
        style::piece(" "@ + fit::truncated(e.preview@, preview_w), base),
    ]
}

pub fn entry_line(e: &GlobalArchiveEntry, selected: bool, preview_w: usize, theme: &Theme) -> (r:
    Line)
    ensures
        r@ == entry_pieces(*e, selected, preview_w as int, *theme),
{
    let s: PopupStyles = styles_of(*theme);
    let base: Style = if selected {
        s.selected
    } else {
        s.value
    };
    let tag: Style = if selected {
        s.selected
    } else {
        s.dim
    };
    let prompt: bool = text::str_eq(e.kind, "PROMPT");
    let (kind, color): (&str, Color) = kind_label_and_color(e.kind, theme);
    let preview: String = fit::truncate_label(e.preview.as_str(), preview_w);
    let spans: Vec<Span> = vec![
        style::span(
            if selected {
                "> "
            } else {
                "  "
            },
            base,
        ),
        style::span(
            if prompt {
                "  "
            } else {
                "↳ "
            },
            tag,
        ),
        style::span(
            kind,
            if selected {
                s.selected
            } else {
                Style::plain().fg(color)
            },
        ),
        style::styled(padded_cell(e.owner.as_str(), 30), base),
        style::styled(padded_cell(e.time_label.as_str(), 14), tag),
        style::styled(text::cat2(" ", preview.as_str()), base),
    ];
    let r: Line = Line { spans };
    assert(r@ =~= entry_pieces(*e, selected, preview_w as int, *theme));
    r
}

/// The head of the table.
pub open spec fn table_head() -> Seq<char> {
    "     "@ + fit::at_least("KIND"@, 9) + " "@ + fit::at_least("OWNER"@, 30) + " "@
        + fit::at_least("TIME"@, 14) + " PREVIEW"@
}

/// Which of what was found is selected.
pub open spec fn selected(list: ArchiveList) -> int {
    text::min_int(list.selected as int, text::monus(list.filtered@.len() as int, 1))
}

/// The lines of the first `n` artifacts that were found; nothing for one that is not there any
/// more.
pub open spec fn entry_rows(list: ArchiveList, preview_w: int, theme: Theme, n: int) -> Seq<
    Seq<Piece>,
>
    decreases n,
{
    if n <= 0 {
        Seq::empty()
    } else {
        let before: Seq<Seq<Piece>> = entry_rows(list, preview_w, theme, n - 1);
        let at: int = list.filtered@[n - 1].1 as int;
        if at < list.index@.len() {
            before + seq![
                entry_pieces(list.index@[at], n - 1 == selected(list), preview_w, theme),
            ]
        } else {
            before
        }
    }
}

fn push_entries(out: &mut Vec<Line>, list: &ArchiveList, preview_w: usize, theme: &Theme)
    ensures
        style::rows(final(out)@) == style::rows(old(out)@) + entry_rows(
            *list,
            preview_w as int,
            *theme,
            list.filtered@.len() as int,
        ),
{
    broadcast use style::group_line_lists;

    let ghost before: Seq<Seq<Piece>> = style::rows(out@);
    let total: usize = list.filtered.len();
    let chosen: usize = text::min_of(list.selected, text::minus(total, 1));
    let mut i: usize = 0;
    while i < total
        invariant
            i <= total == list.filtered@.len(),
            chosen == selected(*list),
            style::rows(out@) == before + entry_rows(*list, preview_w as int, *theme, i as int),
        decreases total - i,
    {
        broadcast use style::group_line_lists;

        let at: usize = list.filtered[i].1;
        if at < list.index.len() {
            style::push_line(out, entry_line(&list.index[at], i == chosen, preview_w, theme));
        }
        i += 1;
    }
}

/// The lines of the popup.
#[verifier::opaque]
pub open spec fn rows(list: ArchiveList, theme: Theme, inner_width: int) -> Seq<Seq<Piece>> {
    let s: PopupStyles = styles_of(theme);
    let width: int = text::max_int(inner_width, 1);
    seq![search_pieces(list.query@, s)] + seq![
        status_pieces(
            history::filter_label(list.filter),
            list.index@.len(),
            list.filtered@.len(),
            s,
        ),
    ] + seq![Seq::<Piece>::empty()] + seq![
        seq![style::piece(fit::truncated(table_head(), width), s.dim)],
    ] + entry_rows(list, text::monus(width, 61), theme, list.filtered@.len() as int) + (
    if list.filtered@.len() == 0 {
        seq![Seq::<Piece>::empty()] + seq![
            seq![
                style::piece(
                    if list.query@.len() == 0 {
                        "No archived artifacts found."@
                    } else {
                        "No artifacts match your search."@
                    },
                    s.dim,
                ),
            ],
        ]
    } else {
        Seq::empty()
    }) + seq![Seq::<Piece>::empty()] + seq![
        seq![
            style::piece(
                if list.query@.len() == 0 {
                    "Enter open | A all | D 24h | W 7d | M 30d | type to search | Esc close"@
                } else {
                    "Enter open | Backspace delete char | Ctrl+U clear | Esc clear/close"@
                },
                s.dim,
            ),
        ],
    ]
}

fn table_head_of() -> (r: String)
    ensures
        r@ == table_head(),
{
    let a: String = fit::pad_end("KIND", 9);
    let b: String = fit::pad_end("OWNER", 30);
    let c: String = fit::pad_end("TIME", 14);
    text::cat7("     ", a.as_str(), " ", b.as_str(), " ", c.as_str(), " PREVIEW")
}

pub fn build_lines(list: &ArchiveList, theme: &Theme, inner_width: u16) -> (r: Vec<Line>)
    ensures
        style::rows(r@) == rows(*list, *theme, inner_width as int),
{
    reveal(rows);
    broadcast use {style::group_lines, style::group_line_lists};

    let s: PopupStyles = styles_of(*theme);
    let width: usize = text::max_of(inner_width as usize, 1);
    let plain: bool = text::length(list.query.as_str()) == 0;
    let mut out: Vec<Line> = Vec::new();
    style::push_line(&mut out, search_bar_line(list.query.as_str(), &s));
    style::push_line(
        &mut out,
        status_line(
            history::saved_run_history_filter_label(list.filter),
            list.index.len(),
            list.filtered.len(),
            &s,
        ),
    );
    style::push_line(&mut out, style::blank());
    let head: String = table_head_of();
    style::push_line(&mut out, style::single(fit::truncate_label(head.as_str(), width), s.dim));
    push_entries(&mut out, list, text::minus(width, 61), theme);
    if list.filtered.len() == 0 {
        style::push_line(&mut out, style::blank());
        style::push_line(
            &mut out,
            style::single(
                text::copy(
                    if plain {
                        "No archived artifacts found."
                    } else {
                        "No artifacts match your search."
                    },
                ),
                s.dim,
            ),
        );
    }
    style::push_line(&mut out, style::blank());
    style::push_line(
        &mut out,
        style::single(
            text::copy(
                if plain {
                    "Enter open | A all | D 24h | W 7d | M 30d | type to search | Esc close"
                } else {
                    "Enter open | Backspace delete char | Ctrl+U clear | Esc clear/close"
                },
            ),
            s.dim,
        ),
    );
    out
}

proof fn every_entry_has_a_line(list: ArchiveList, preview_w: int, theme: Theme, n: int)
    ensures
        ({
            let places: Seq<int> = counting::picked(n, is_there(list));
            let lines: Seq<Seq<Piece>> = entry_rows(list, preview_w, theme, n);
            &&& lines.len() == places.len()
            &&& forall|i: int|
                0 <= i < places.len() ==> #[trigger] lines[i] == entry_pieces(
                    list.index@[list.filtered@[places[i]].1 as int],
                    places[i] == selected(list),
                    preview_w,
                    theme,
                )
        }),
    decreases n,
{
    if n > 0 {
        every_entry_has_a_line(list, preview_w, theme, n - 1);
        assert(is_there(list)(n - 1) == (list.filtered@[n - 1].1 < list.index@.len()));
    }
}

proof fn entry_rows_are_counted(list: ArchiveList, preview_w: int, theme: Theme, n: int)
    ensures
        entry_rows(list, preview_w, theme, n).len() == counting::counted(n, is_there(list)),
    decreases n,
{
    if n > 0 {
        entry_rows_are_counted(list, preview_w, theme, n - 1);
        assert(is_there(list)(n - 1) == (list.filtered@[n - 1].1 < list.index@.len()));
    }
}

/// The lines are counted as they are drawn.
pub proof fn lines_are_counted(list: ArchiveList, theme: Theme, inner_width: int)
    ensures
        rows(list, theme, inner_width).len() == lines_in(list),
{
    reveal(rows);
    entry_rows_are_counted(
        list,
        text::monus(text::max_int(inner_width, 1), 61),
        theme,
        list.filtered@.len() as int,
    );
}

/// A line stands for the artifact that it shows, and every artifact that was found and is still
/// there has a line.
pub proof fn lines_stand_for_their_entries(list: ArchiveList, theme: Theme, inner_width: int, line: int)
    ensures
        entry_on(list, line) matches Some(k) ==> {
            &&& 0 <= k < list.filtered@.len()
            &&& list.filtered@[k].1 < list.index@.len()
            &&& 4 <= line < rows(list, theme, inner_width).len()
            &&& rows(list, theme, inner_width)[line] == entry_pieces(
                list.index@[list.filtered@[k].1 as int],
                k == selected(list),
                text::monus(text::max_int(inner_width, 1), 61),
                theme,
            )
        },
        forall|k: int|
            0 <= k < list.filtered@.len() && (#[trigger] list.filtered@[k]).1 < list.index@.len()
                ==> exists|at: int| #[trigger] entry_on(list, at) == Some(k),
{
    reveal(rows);
    let n: int = list.filtered@.len() as int;
    let meets = is_there(list);
    every_entry_has_a_line(list, text::monus(text::max_int(inner_width, 1), 61), theme, n);
    counting::picked_are_in_order(n, meets);
    if let Some(k) = entry_on(list, line) {
        assert(listed(list)[line - 4] == k);
        assert(meets(k));
    }
    assert forall|k: int|
        0 <= k < n && (#[trigger] list.filtered@[k]).1 < list.index@.len() implies exists|at: int|
        #[trigger] entry_on(list, at) == Some(k) by {
        assert(meets(k));
        counting::picked_holds(n, meets, k);
        let i: int = listed(list).index_of(k);
        assert(entry_on(list, 4 + i) == Some(k));
    }
}

/// The popup as it is drawn: its frame, all of its lines, and how far they are scrolled.
pub struct HistoryPaint {
    pub title: Line,
    pub border: Style,
    pub inner: Rect,
    pub lines: Vec<Line>,
    pub look: Style,
    pub scroll: usize,
}

pub fn render(list: &ArchiveList, theme: &Theme, area: Rect) -> (r: HistoryPaint)
    ensures
        r.title@ == seq![
            style::piece(
                " GLOBAL ARTIFACT ARCHIVE "@,
                Style::plain().fg(theme.title_focused).bold(),
            ),
        ],
        r.border == Style::plain().fg(theme.border),
        r.inner == geometry::inside(area),
        style::rows(r.lines@) == rows(*list, *theme, r.inner.width as int),
        r.look == Style::plain().fg(theme.foreground).bg(theme.background),
        r.scroll == frames::scrolled(
            list.scroll as int,
            rows(*list, *theme, r.inner.width as int).len() as int,
            r.inner.height as int,
        ),
{
    let inner: Rect = geometry::inner(area);
    let lines: Vec<Line> = build_lines(list, theme, inner.width);
    assert(style::rows(lines@).len() == lines@.len());
    let scroll: usize = frames::clamp_scroll(list.scroll, lines.len(), inner.height as usize);
    HistoryPaint {
        title: style::single(
            text::copy(" GLOBAL ARTIFACT ARCHIVE "),
            Style::plain().fg(theme.title_focused).bold(),
        ),
        border: Style::plain().fg(theme.border),
        inner,
        lines,
        look: Style::plain().fg(theme.foreground).bg(theme.background),
        scroll,
    }
}

} // verus!
