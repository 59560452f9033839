//! In which look every single character is drawn.

use vstd::prelude::*;

use crate::artifacts_popup::code;
use crate::artifacts_popup::code::Laying;
use crate::artifacts_popup::code::StyledRange;
use crate::columns;
use crate::definition_popup;
use crate::definition_popup::Shown;
use crate::editor_view::buffer;
use crate::editor_view::buffer::Buffer;
use crate::editor_view::buffer::HighlightSnapshot;
use crate::editor_view::looks;
use crate::editor_view::pane;
use crate::editor_view::pane::PaneLook;
use crate::editor_view::spans;
use crate::editor_view::spans::Painted;
use crate::fuzzy_search_popup;
use crate::fuzzy_search_popup::SearchResultFile;
use crate::laws::labels;
use crate::runs;
use crate::runs::Gathered;
use crate::style;
use crate::style::Piece;
use crate::style::Style;
use crate::style::Theme;
use crate::text;

verus! {

/// The characters of a piece, each with its look.
pub open spec fn shades(p: Piece) -> Seq<(char, Style)> {
    Seq::new(p.text.len(), |i: int| (p.text[i], p.style))
}

/// The characters of a row, each with its look.
pub open spec fn drawn(v: Seq<Piece>) -> Seq<(char, Style)>
    decreases v.len(),
{
    if v.len() == 0 {
        Seq::empty()
    } else {
        drawn(v.drop_last()) + shades(v.last())
    }
}

/// The characters of a text, each with its look.
pub open spec fn dressed(s: Seq<char>, looks: spec_fn(int) -> Style, n: int) -> Seq<(char, Style)> {
    Seq::new(n as nat, |i: int| (s[i], looks(i)))
}

/// One more piece adds its characters.
pub proof fn drawn_push(v: Seq<Piece>, p: Piece)
    ensures
        drawn(v.push(p)) == drawn(v) + shades(p),
{
    assert(v.push(p).drop_last() =~= v);
}

/// Pieces beside each other are drawn beside each other.
pub proof fn drawn_add(a: Seq<Piece>, b: Seq<Piece>)
    ensures
        drawn(a + b) == drawn(a) + drawn(b),
    decreases b.len(),
{
    if b.len() == 0 {
        assert(a + b =~= a);
        assert(drawn(a) + drawn(b) =~= drawn(a));
    } else {
        drawn_add(a, b.drop_last());
        assert((a + b).drop_last() =~= a + b.drop_last());
        assert((a + b).last() == b.last());
        assert(drawn(a) + drawn(b.drop_last()) + shades(b.last()) =~= drawn(a) + drawn(b));
    }
}

/// Gathering characters into runs keeps the look of each.
pub proof fn runs_keep_every_look(g: Gathered, c: char, look: Style)
    ensures
        drawn(runs::all_pieces(runs::with(g, c, look))) == drawn(runs::all_pieces(g)).push(
            (c, look),
        ),
{
    let before: Seq<Piece> = runs::all_pieces(g);
    let after: Gathered = runs::with(g, c, look);
    if look != g.look {
        drawn_push(before, style::piece(seq![c], look));
        assert(shades(style::piece(seq![c], look)) =~= seq![(c, look)]);
        assert(drawn(before) + seq![(c, look)] =~= drawn(before).push((c, look)));
    } else {
        drawn_push(g.done, style::piece(g.open.push(c), look));
        assert(shades(style::piece(g.open.push(c), look)) =~= shades(
            style::piece(g.open, look),
        ).push((c, look)));
        if g.open.len() > 0 {
            drawn_push(g.done, style::piece(g.open, look));
        } else {
            assert(shades(style::piece(g.open, look)) =~= Seq::<(char, Style)>::empty());
        }
        assert(drawn(runs::all_pieces(after)) =~= drawn(before).push((c, look)));
    }
}

proof fn painted_in_its_looks(
    s: Seq<char>,
    all: Seq<Style>,
    end: int,
    tab_width: int,
    n: int,
)
    requires
        0 <= n <= s.len(),
        labels::lacks(s, '\t'),
        spans::display_col(s, tab_width, s.len() as int) <= end,
    ensures
        ({
            let p: Painted = spans::painted_upto(s, all, 0, end, tab_width, n);
            &&& !p.past
            &&& p.col == spans::display_col(s, tab_width, n)
            &&& drawn(runs::all_pieces(p.gathered)) == dressed(s, |i: int| all[i], n)
        }),
    decreases n,
{
    if n > 0 {
        painted_in_its_looks(s, all, end, tab_width, n - 1);
        spans::columns_grow(s, tab_width, n - 1, n);
        if n < s.len() {
            spans::columns_grow(s, tab_width, n, s.len() as int);
        }
        let before: Painted = spans::painted_upto(s, all, 0, end, tab_width, n - 1);
        assert(s[n - 1] != '\t');
        runs_keep_every_look(before.gathered, s[n - 1], all[n - 1]);
        assert(dressed(s, |i: int| all[i], n) =~= dressed(s, |i: int| all[i], n - 1).push(
            (s[n - 1], all[n - 1]),
        ));
    } else {
        assert(dressed(s, |i: int| all[i], 0) =~= Seq::<(char, Style)>::empty());
    }
}

/// Every character of a line of the editor is drawn in its own look, where the pane is wide enough
/// and the line has no tabs.
pub proof fn characters_are_drawn_in_their_look(
    s: Seq<char>,
    all: Seq<Style>,
    width: int,
    tab_width: int,
    base: Style,
    i: int,
)
    requires
        0 <= i < s.len(),
        labels::lacks(s, '\t'),
        spans::display_col(s, tab_width, s.len() as int) <= width <= usize::MAX,
        width >= 1,
    ensures
        drawn(spans::shown(s, all, 0, width, tab_width, base)).len() > i,
        drawn(spans::shown(s, all, 0, width, tab_width, base))[i] == (s[i], all[i]),
{
    let n: int = s.len() as int;
    painted_in_its_looks(s, all, width, tab_width, n);
    let row: Seq<Piece> = runs::all_pieces(
        spans::painted_upto(s, all, 0, width, tab_width, n).gathered,
    );
    let space: Seq<Piece> = seq![style::piece(text::fill(' ', width as nat), base)];
    assert(drawn(row).len() == n);
    if row.len() == 0 {
        assert(drawn(row).len() == 0);
    }
    drawn_add(row, space);
    assert(drawn(row)[i] == (s[i], all[i]));
}

/// A character within the selection is drawn on the background of the selection, on whichever line
/// of the selection it stands, unless it is one of two matching brackets.
pub proof fn selected_characters_are_drawn_as_selected(
    b: Buffer,
    snap: Option<HighlightSnapshot>,
    p: PaneLook,
    line: int,
    i: int,
)
    requires
        0 <= line < b.lines@.len(),
        b.selection is Some,
        p.marks.pair is None,
        b.viewport.offset_col == 0,
        ({
            let s: Seq<char> = buffer::content(b, line);
            let from: int = b.lines@[line].char_start as int;
            &&& 0 <= i < s.len()
            &&& labels::lacks(s, '\t')
            &&& spans::display_col(s, p.tab_width as int, s.len() as int) <= text::max_int(
                b.viewport.width as int,
                1,
            )
            &&& from + i < b.lines@[line].char_end
            &&& (b.selection->0).0 <= from + i
            &&& from + i < (b.selection->0).1
        }),
    ensures
        ({
            let row: Seq<(char, Style)> = drawn(pane::line_pieces(b, snap, p, line));
            let front: int = (pane::number_text(b, line).len() + pane::bar_text(
                buffer::diff_of(b, line),
            ).len()) as int;
            &&& row.len() > front + i
            &&& row[front + i].0 == buffer::content(b, line)[i]
            &&& row[front + i].1.bg == Some(p.theme.selection_bg)
        }),
{
    let s: Seq<char> = buffer::content(b, line);
    let base: Style = pane::line_base(b, p, line);
    let all: Seq<Style> = pane::line_looks(b, snap, p, line);
    let width: int = text::max_int(b.viewport.width as int, 1);
    characters_are_drawn_in_their_look(s, all, width, p.tab_width as int, base, i);
    let caret_line: bool = line == b.cursor_line;
    let number: Piece = style::piece(
        pane::number_text(b, line),
        looks::number_style(caret_line, p.bg, p.theme),
    );
    let bar: Piece = style::piece(
        pane::bar_text(buffer::diff_of(b, line)),
        looks::bar_style(caret_line, p.bg, buffer::diff_of(b, line), p.theme),
    );
    let rest: Seq<Piece> = spans::shown(s, all, 0, width, p.tab_width as int, base);
    let front: Seq<Piece> = seq![number, bar];
    assert(spans::display_col(s, p.tab_width as int, 0) == 0);
    assert(pane::line_pieces(b, snap, p, line) == front + rest);
    drawn_add(front, rest);
    drawn_push(seq![number], bar);
    assert(seq![number].push(bar) =~= front);
    drawn_push(Seq::empty(), number);
    assert(Seq::<Piece>::empty().push(number) =~= seq![number]);
    assert(drawn(Seq::<Piece>::empty()).len() == 0);
    assert(drawn(front).len() == shades(number).len() + shades(bar).len());
    let k: int = drawn(front).len() as int;
    assert((drawn(front) + drawn(rest))[k + i] == drawn(rest)[i]);
    assert(looks::is_selected(b, line, i));
}

proof fn path_in_its_looks(f: SearchResultFile, selected: bool, theme: Theme, n: int)
    requires
        0 <= n <= f.rel_path@.len(),
    ensures
        drawn(runs::all_pieces(fuzzy_search_popup::path_upto(f, selected, theme, n))) == dressed(
            f.rel_path@,
            |i: int| fuzzy_search_popup::hit_style(f, i, selected, theme),
            n,
        ),
    decreases n,
{
    let look = |i: int| fuzzy_search_popup::hit_style(f, i, selected, theme);
    if n > 0 {
        path_in_its_looks(f, selected, theme, n - 1);
        runs_keep_every_look(
            fuzzy_search_popup::path_upto(f, selected, theme, n - 1),
            f.rel_path@[n - 1],
            fuzzy_search_popup::hit_style(f, n - 1, selected, theme),
        );
        assert(dressed(f.rel_path@, look, n) =~= dressed(f.rel_path@, look, n - 1).push(
            (f.rel_path@[n - 1], look(n - 1)),
        ));
    } else {
        assert(dressed(f.rel_path@, look, 0) =~= Seq::<(char, Style)>::empty());
    }
}

/// In the path of a file that was found, exactly the characters that match are drawn in the color of
/// matches.
pub proof fn matching_characters_of_paths_stand_out(
    f: SearchResultFile,
    selected: bool,
    theme: Theme,
    i: int,
)
    requires
        0 <= i < f.rel_path@.len(),
        f.matched_indices@.len() > 0,
    ensures
        ({
            let row: Seq<(char, Style)> = drawn(fuzzy_search_popup::file_row(f, selected, theme));
            &&& row.len() == f.rel_path@.len() + 2
            &&& row[i + 2].0 == f.rel_path@[i]
            &&& (exists|k: int|
                0 <= k < f.matched_indices@.len() && #[trigger] f.matched_indices@[k] == i)
                ==> row[i + 2].1.fg == Some(theme.accent) && row[i + 2].1.bold
            &&& !(exists|k: int|
                0 <= k < f.matched_indices@.len() && #[trigger] f.matched_indices@[k] == i)
                ==> row[i + 2].1.fg == Some(theme.foreground)
        }),
{
    reveal_strlit("› ");
    reveal_strlit("  ");
    let n: int = f.rel_path@.len() as int;
    path_in_its_looks(f, selected, theme, n);
    let mark: Piece = style::piece(
        fuzzy_search_popup::row_mark(selected),
        fuzzy_search_popup::row_style(selected, theme),
    );
    let rest: Seq<Piece> = runs::all_pieces(fuzzy_search_popup::path_upto(f, selected, theme, n));
    drawn_add(seq![mark], rest);
    drawn_push(Seq::empty(), mark);
    assert(Seq::<Piece>::empty().push(mark) =~= seq![mark]);
    assert(drawn(Seq::<Piece>::empty()).len() == 0);
    assert(drawn(seq![mark]).len() == 2);
    assert((drawn(seq![mark]) + drawn(rest))[i + 2] == drawn(rest)[i]);
}

proof fn definition_in_its_looks(
    s: Seq<char>,
    mapped: Option<Seq<StyledRange>>,
    base: Style,
    n: int,
)
    requires
        0 <= n <= s.len(),
        labels::lacks(s, '\t'),
    ensures
        drawn(
            runs::all_pieces(definition_popup::shown_upto(s, mapped, base, n).gathered),
        ) == dressed(s, |i: int| definition_popup::look_at(mapped, base, i), n),
    decreases n,
{
    let look = |i: int| definition_popup::look_at(mapped, base, i);
    if n > 0 {
        definition_in_its_looks(s, mapped, base, n - 1);
        let before: Shown = definition_popup::shown_upto(s, mapped, base, n - 1);
        assert(s[n - 1] != '\t');
        runs_keep_every_look(
            before.gathered,
            s[n - 1],
            definition_popup::look_at(mapped, base, n - 1),
        );
        assert(dressed(s, look, n) =~= dressed(s, look, n - 1).push((s[n - 1], look(n - 1))));
    } else {
        assert(dressed(s, look, 0) =~= Seq::<(char, Style)>::empty());
    }
}

/// Every character of a definition is drawn with the look that its line has there.
pub proof fn characters_of_definitions_have_their_look(
    s: Seq<char>,
    mapped: Option<Seq<StyledRange>>,
    theme: Theme,
    i: int,
)
    requires
        0 <= i < s.len(),
        labels::lacks(s, '\t'),
    ensures
        drawn(definition_popup::line_pieces(s, mapped, theme)).len() == s.len(),
        drawn(definition_popup::line_pieces(s, mapped, theme))[i].0 == s[i],
        mapped is None ==> drawn(definition_popup::line_pieces(s, mapped, theme))[i].1.fg == Some(
            theme.foreground,
        ),
        drawn(definition_popup::line_pieces(s, mapped, theme))[i].1 == definition_popup::look_at(
            mapped,
            Style::plain().fg(theme.foreground).bg(theme.background),
            i,
        ),
{
    let base: Style = Style::plain().fg(theme.foreground).bg(theme.background);
    definition_in_its_looks(s, mapped, base, s.len() as int);
}

/// The characters of rows, each with its look.
pub open spec fn drawn_rows(v: Seq<Seq<Piece>>) -> Seq<(char, Style)>
    decreases v.len(),
{
    if v.len() == 0 {
        Seq::empty()
    } else {
        drawn_rows(v.drop_last()) + drawn(v.last())
    }
}

/// The characters of code that is being laid out, each with its look.
pub open spec fn laid_out(f: Laying) -> Seq<(char, Style)> {
    drawn_rows(f.done) + drawn(code::line_of(f))
}

proof fn laying_keeps_every_look(f: Laying, c: char, look: Style, need: int, width: int)
    ensures
        laid_out(code::laid(f, c, look, need, width)) == laid_out(f).push((c, look)),
{
    let wraps: bool = columns::leaves(f.cells, need, width) && f.open.len() > 0;
    let g: Laying = if wraps {
        Laying {
            done: f.done.push(code::line_of(f)),
            line: Seq::empty(),
            open: Seq::empty(),
            look,
            cells: 0,
        }
    } else {
        f
    };
    if wraps {
        assert(g.done.drop_last() =~= f.done);
        assert(drawn_rows(g.done) == drawn_rows(f.done) + drawn(code::line_of(f)));
        assert(code::line_of(g) =~= Seq::<Piece>::empty());
        assert(laid_out(g) =~= laid_out(f));
    }
    let h: Laying = if g.look != look {
        Laying { line: code::line_of(g), open: Seq::empty(), ..g }
    } else {
        g
    };
    assert(code::line_of(h) =~= code::line_of(g));
    let last: Laying = Laying { open: h.open.push(c), look, cells: h.cells + need, ..h };
    drawn_push(h.line, style::piece(h.open.push(c), look));
    assert(shades(style::piece(h.open.push(c), look)) =~= shades(style::piece(h.open, look)).push(
        (c, look),
    ));
    if h.open.len() > 0 {
        drawn_push(h.line, style::piece(h.open, look));
    } else {
        assert(shades(style::piece(h.open, look)) =~= Seq::<(char, Style)>::empty());
    }
    assert(drawn(code::line_of(last)) =~= drawn(code::line_of(h)).push((c, look)));
    assert(laid_out(last) =~= laid_out(f).push((c, look)));
}

proof fn code_in_its_looks(
    s: Seq<char>,
    ranges: Seq<StyledRange>,
    base: Style,
    width: int,
    n: int,
)
    requires
        0 <= n <= s.len(),
        labels::lacks(s, '\t'),
    ensures
        laid_out(code::laid_upto(s, ranges, base, width, n)) == dressed(
            s,
            |i: int| code::style_at(ranges, base, i, ranges.len() as int),
            n,
        ),
    decreases n,
{
    let look = |i: int| code::style_at(ranges, base, i, ranges.len() as int);
    if n > 0 {
        code_in_its_looks(s, ranges, base, width, n - 1);
        assert(s[n - 1] != '\t');
        laying_keeps_every_look(
            code::laid_upto(s, ranges, base, width, n - 1),
            s[n - 1],
            code::style_at(ranges, base, n - 1, ranges.len() as int),
            columns::cells(s[n - 1]),
            width,
        );
        assert(dressed(s, look, n) =~= dressed(s, look, n - 1).push((s[n - 1], look(n - 1))));
    } else {
        let f: Laying = code::laid_upto(s, ranges, base, width, 0);
        assert(code::line_of(f) =~= Seq::<Piece>::empty());
        assert(laid_out(f) =~= Seq::<(char, Style)>::empty());
        assert(dressed(s, look, 0) =~= Seq::<(char, Style)>::empty());
    }
}

/// Every character of a line of code is drawn in its place and in the look that the analysis gives
/// it, however the line is wrapped.
pub proof fn characters_of_code_have_their_look(
    s: Seq<char>,
    ranges: Seq<StyledRange>,
    base: Style,
    width: int,
    i: int,
)
    requires
        0 <= i < s.len(),
        labels::lacks(s, '\t'),
    ensures
        drawn_rows(code::code_rows(s, ranges, base, width)).len() == s.len(),
        drawn_rows(code::code_rows(s, ranges, base, width))[i] == (
            s[i],
            code::style_at(ranges, base, i, ranges.len() as int),
        ),
{
    let w: int = text::max_int(width, 1);
    let n: int = s.len() as int;
    code_in_its_looks(s, ranges, base, w, n);
    let end: Laying = code::laid_upto(s, ranges, base, w, n);
    let rows: Seq<Seq<Piece>> = end.done.push(code::line_of(end));
    assert(rows.drop_last() =~= end.done);
    assert(drawn_rows(rows) == laid_out(end));
}

} // verus!
