//! The pane of the file tree.

use vstd::prelude::*;

use crate::frames;
use crate::frames::PaneFrame;
use crate::geometry;
use crate::geometry::Rect;
use crate::style;
use crate::style::Color;
use crate::style::Line;
use crate::style::Piece;
use crate::style::Span;
use crate::style::Style;
use crate::style::Theme;
use crate::text;

verus! {

#[derive(Clone, Copy, Debug, PartialEq, Eq, Structural)]
pub enum FileTreeKind {
    Dir,
    File,
    Loading,
}

/// A row of the tree: its text is indented and, for a directory, starts with an arrow.
pub struct FileTreeRow {
    pub text: String,
    pub depth: usize,
    pub kind: FileTreeKind,
}

pub struct FileTree {
    pub rows: Vec<FileTreeRow>,
    pub scroll_offset: usize,
    pub selected: usize,
    pub show_hidden: bool,
    pub show_ignored: bool,
}

pub open spec fn switch(flag: bool) -> Seq<char> {
    if flag {
        "ON"@
    } else {
        "OFF"@
    }
}

pub fn on_off(flag: bool) -> (r: &'static str)
    ensures
        r@ == switch(flag),
{
    if flag {
        "ON"
    } else {
        "OFF"
    }
}

/// The keys that the tree knows.
pub open spec fn commands(tree: FileTree) -> Seq<char> {
    "[Enter open/toggle] [Esc/q close] [r refresh] [. hidden:"@ + switch(tree.show_hidden)
        + "] [i ignored:"@ + switch(tree.show_ignored) + "]"@
}

pub fn header_commands(tree: &FileTree) -> (r: String)
    ensures
        r@ == commands(*tree),
{
    text::cat5(
        "[Enter open/toggle] [Esc/q close] [r refresh] [. hidden:",
        on_off(tree.show_hidden),
        "] [i ignored:",
        on_off(tree.show_ignored),
        "]",
    )
}

/// The title of the pane.
pub open spec fn title_pieces(tree: FileTree, focused: bool, theme: Theme) -> Seq<Piece> {
    seq![
        style::piece(
            "NITTREE"@,
            Style::plain().fg(
                if focused {
                    theme.title_focused
                } else {
                    theme.title
                },
            ).bg(theme.background).bold(),
        ),
        style::piece(" "@, Style::plain()),
        style::piece(commands(tree), Style::plain().fg(theme.border).bg(theme.background).dim()),
    ]
}

fn title_line(tree: &FileTree, focused: bool, theme: &Theme) -> (r: Line)
    ensures
        r@ == title_pieces(*tree, focused, *theme),
{
    let spans: Vec<Span> = vec![
        style::span(
            "NITTREE",
            Style::plain().fg(
                if focused {
                    theme.title_focused
                } else {
                    theme.title
                },
            ).bg(theme.background).bold(),
        ),
        style::span(" ", Style::plain()),
        style::styled(
            header_commands(tree),
            Style::plain().fg(theme.border).bg(theme.background).dim(),
        ),
    ];
    let r: Line = Line { spans };
    assert(r@ =~= title_pieces(*tree, focused, *theme));
    r
}

/// The style of a row.
pub open spec fn row_style(kind: FileTreeKind, selected: bool, theme: Theme, file_fg: Color) -> Style {
    let base: Style = Style::plain().fg(
        match kind {
            FileTreeKind::Dir => theme.title,
            FileTreeKind::File => file_fg,
            FileTreeKind::Loading => theme.warning,
        },
    );
    if selected {
        base.bg(theme.selection_bg).bold()
    } else {
        base
    }
}

/// A directory: its indent, its arrow, and its name.
pub open spec fn dir_pieces(row: FileTreeRow, look: Style, theme: Theme) -> Seq<Piece> {
    let indent: int = text::min_int(row.depth * 2, usize::MAX as int);
    let rest: Seq<char> = text::tail(row.text@, indent);
    let arrow: Seq<char> = text::head(rest, 2);
    if arrow.len() == 0 {
        seq![style::piece(row.text@, look)]
    } else {
        seq![
            style::piece(text::head(row.text@, indent), look),
            style::piece(arrow, look.fg(theme.accent).bold()),
            style::piece(text::tail(rest, 2), look),
        ]
    }
}

pub fn render_dir_row(row: &FileTreeRow, look: Style, theme: &Theme) -> (r: Line)
    ensures
        r@ == dir_pieces(*row, look, *theme),
{
    let indent: usize = row.depth.saturating_add(row.depth);
    let rest: String = text::tail_of(row.text.as_str(), indent);
    let arrow: String = text::head_of(rest.as_str(), 2);
    if text::length(arrow.as_str()) == 0 {
        return style::single(text::copy(row.text.as_str()), look);
    }
    let spans: Vec<Span> = vec![
        style::styled(text::head_of(row.text.as_str(), indent), look),
        style::styled(arrow, look.fg(theme.accent).bold()),
        style::styled(text::tail_of(rest.as_str(), 2), look),
    ];
    let r: Line = Line { spans };
    assert(r@ =~= dir_pieces(*row, look, *theme));
    r
}

/// A row of the tree.
pub open spec fn row_pieces(row: FileTreeRow, selected: bool, theme: Theme, file_fg: Color) -> Seq<
    Piece,
> {
    let look: Style = row_style(row.kind, selected, theme, file_fg);
    if row.kind == FileTreeKind::Dir {
        dir_pieces(row, look, theme)
    } else {
        seq![style::piece(row.text@, look)]
    }
}

pub fn row_line(row: &FileTreeRow, selected: bool, theme: &Theme, file_fg: Color) -> (r: Line)
    ensures
        r@ == row_pieces(*row, selected, *theme, file_fg),
{
    let base: Style = Style::plain().fg(
        match row.kind {
            FileTreeKind::Dir => theme.title,
            FileTreeKind::File => file_fg,
            FileTreeKind::Loading => theme.warning,
        },
    );
    let look: Style = if selected {
        base.bg(theme.selection_bg).bold()
    } else {
        base
    };
    if row.kind == FileTreeKind::Dir {
        render_dir_row(row, look, theme)
    } else {
        style::single(text::copy(row.text.as_str()), look)
    }
}

/// A row is shown with all of its text.
pub proof fn rows_keep_text(row: FileTreeRow, selected: bool, theme: Theme, file_fg: Color)
    ensures
        style::plain_text(row_pieces(row, selected, theme, file_fg)) == row.text@,
{
    let look: Style = row_style(row.kind, selected, theme, file_fg);
    let indent: int = text::min_int(row.depth * 2, usize::MAX as int);
    let rest: Seq<char> = text::tail(row.text@, indent);
    let arrow: Seq<char> = text::head(rest, 2);
    style::one_piece_text(style::piece(row.text@, look));
    if row.kind == FileTreeKind::Dir && arrow.len() > 0 {
        let a: Piece = style::piece(text::head(row.text@, indent), look);
        let b: Piece = style::piece(arrow, look.fg(theme.accent).bold());
        let c: Piece = style::piece(text::tail(rest, 2), look);
        style::one_piece_text(a);
        style::plain_text_push(seq![a], b);
        style::plain_text_push(seq![a].push(b), c);
        assert(seq![a].push(b).push(c) =~= seq![a, b, c]);
        text::head_tail(row.text@, indent);
        text::head_tail(rest, 2);
        assert(a.text + b.text + c.text =~= a.text + (b.text + c.text));
    }
}

/// The place behind the last row that is shown.
pub open spec fn shown_end(tree: FileTree, height: int) -> int {
    text::min_int(tree.scroll_offset + height, tree.rows@.len() as int)
}

/// The rows that are shown.
pub open spec fn shown_rows(tree: FileTree, height: int, theme: Theme, file_fg: Color) -> Seq<
    Seq<Piece>,
> {
    Seq::new(
        text::monus(shown_end(tree, height), tree.scroll_offset as int) as nat,
        |i: int|
            row_pieces(
                tree.rows@[tree.scroll_offset + i],
                tree.scroll_offset + i == tree.selected,
                theme,
                file_fg,
            ),
    )
}

fn visible_rows(tree: &FileTree, height: usize, theme: &Theme, file_fg: Color) -> (r: Vec<Line>)
    ensures
        style::rows(r@) == shown_rows(*tree, height as int, *theme, file_fg),
{
    let ghost want: Seq<Seq<Piece>> = shown_rows(*tree, height as int, *theme, file_fg);
    let from: usize = tree.scroll_offset;
    let end: usize = text::min_of(from.saturating_add(height), tree.rows.len());
    let mut out: Vec<Line> = Vec::new();
    let mut i: usize = from;
    assert(style::rows(out@) =~= want.take(0));
    while i < end
        invariant
            from <= i,
            i <= end || i == from,
            from == tree.scroll_offset,
            end == shown_end(*tree, height as int),
            end <= tree.rows@.len(),
            want == shown_rows(*tree, height as int, *theme, file_fg),
            style::rows(out@) == want.take(i - from),
        decreases end - i,
    {
        style::push_line(&mut out, row_line(&tree.rows[i], i == tree.selected, theme, file_fg));
        i += 1;
        assert(want.take(i - from) =~= want.take(i - from - 1) + seq![want[i - from - 1]]);
    }
    assert(want.take(i - from) =~= want);
    out
}

/// The pane as it is drawn.
pub struct TreePaint {
    pub frame: PaneFrame,
    pub title: Line,
    pub look: Style,
    pub lines: Vec<Line>,
}

/// The pane of the tree; `file_fg` is the color of files.
pub fn render(tree: &FileTree, focused: bool, theme: &Theme, file_fg: Color, area: Rect) -> (r:
    TreePaint)
    ensures
        r.frame == frames::pane_frame(focused, *theme),
        r.title@ == title_pieces(*tree, focused, *theme),
        r.look == Style::plain().bg(theme.background).fg(theme.foreground),
        style::rows(r.lines@) == shown_rows(
            *tree,
            geometry::less(area.height, 2) as int,
            *theme,
            file_fg,
        ),
{
    let height: usize = area.height.saturating_sub(2) as usize;
    TreePaint {
        frame: frames::pane_frame(focused, *theme),
        title: title_line(tree, focused, theme),
        look: Style::plain().bg(theme.background).fg(theme.foreground),
        lines: visible_rows(tree, height, theme, file_fg),
    }
}

} // verus!
