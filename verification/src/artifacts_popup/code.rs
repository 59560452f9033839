//! Code in the popup.

use vstd::prelude::*;

use crate::agent_ops_view::mcp;
use crate::artifacts_popup::lines;
use crate::artifacts_popup::lines::Fill;
use crate::columns;
use crate::state;
use crate::state::Entry;
use crate::style;
use crate::style::Color;
use crate::style::Line;
use crate::style::Piece;
use crate::style::Span;
use crate::style::Style;
use crate::style::Theme;
use crate::text;
use crate::wrap;

verus! {

/// A range of characters of a line that has a style of its own.
#[derive(Clone, Copy, Debug, PartialEq, Eq, Structural)]
pub struct StyledRange {
    pub start: usize,
    pub end: usize,
    pub style: Style,
}

/// A block of code whose lines were analysed by a grammar; nothing for a line where that failed.
pub struct CodeBlock {
    pub grammar: String,
    pub text: String,
    pub lines: Vec<Option<Vec<StyledRange>>>,
}

/// What is known of languages: the names that tags stand for, the grammars that names stand for,
/// and the blocks that were analysed.
pub struct SyntaxTables {
    pub aliases: Vec<Entry<String>>,
    pub grammars: Vec<Entry<String>>,
    pub blocks: Vec<CodeBlock>,
}

/// The language that a tag stands for; the tag itself in small letters where it is unknown.
pub open spec fn canonical(syn: SyntaxTables, tag: Seq<char>) -> Seq<char> {
    let t: Seq<char> = text::trimmed(tag);
    if t.len() == 0 {
        Seq::empty()
    } else {
        match state::value_of(syn.aliases@, t) {
            Some(name) => name@,
            None => text::lowered_text(t),
        }
    }
}

pub fn canonical_code_lang(syn: &SyntaxTables, tag: &str) -> (r: String)
    ensures
        r@ == canonical(*syn, tag@),
{
    let t: String = text::trim(tag);
    if text::length(t.as_str()) == 0 {
        let none: String = String::new();
        assert(none@ =~= Seq::<char>::empty());
        return none;
    }
    match state::lookup(&syn.aliases, t.as_str()) {
        Some(name) => name.clone(),
        None => text::lower_of(t.as_str()),
    }
}

pub open spec fn is_json(syn: SyntaxTables, tag: Seq<char>) -> bool {
    canonical(syn, tag) == "json"@
}

pub fn is_json_code_lang(syn: &SyntaxTables, tag: &str) -> (r: bool)
    ensures
        r == is_json(*syn, tag@),
{
    let name: String = canonical_code_lang(syn, tag);
    text::str_eq(name.as_str(), "json")
}

/// Whether a text starts as a JSON document does.
pub open spec fn json_start(s: Seq<char>) -> bool {
    s.len() > 0 && (s[0] == '{' || s[0] == '[')
}

pub fn is_json_start(s: &str) -> (r: bool)
    ensures
        r == json_start(s@),
{
    let v: Vec<char> = text::chars_of(s);
    v.len() > 0 && (v[0] == '{' || v[0] == '[')
}

/// Whether a language is plain text.
pub open spec fn plain_lang(name: Seq<char>) -> bool {
    name == "text"@ || name == "txt"@ || name == "plaintext"@ || name == "plain"@
}

/// The grammar by which a block of code is analysed, if any: JSON is told by its first character
/// where no language is given.
pub open spec fn grammar(syn: SyntaxTables, tag: Seq<char>, code: Seq<char>) -> Option<Seq<char>> {
    let name: Seq<char> = canonical(syn, tag);
    if name.len() == 0 {
        if json_start(text::trimmed_start(code)) {
            Some("json"@)
        } else {
            None
        }
    } else if name == "fish"@ {
        Some("bash"@)
    } else if plain_lang(name) {
        Some("plaintext"@)
    } else {
        match state::value_of(syn.grammars@, name) {
            Some(g) => Some(g@),
            None => None,
        }
    }
}

pub fn language_id_for_code_block(syn: &SyntaxTables, tag: &str, code: &str) -> (r: Option<String>)
    ensures
        text::opt_text(r) == grammar(*syn, tag@, code@),
{
    let name: String = canonical_code_lang(syn, tag);
    if text::length(name.as_str()) == 0 {
        let bare: String = text::trim_start(code);
        if is_json_start(bare.as_str()) {
            return Some(text::copy("json"));
        }
        return None;
    }
    let n: &str = name.as_str();
    if text::str_eq(n, "fish") {
        Some(text::copy("bash"))
    } else if text::str_eq(n, "text") || text::str_eq(n, "txt") || text::str_eq(n, "plaintext")
        || text::str_eq(n, "plain") {
        Some(text::copy("plaintext"))
    } else {
        match state::lookup(&syn.grammars, n) {
            Some(g) => Some(g.clone()),
            None => None,
        }
    }
}

/// How long the analysis of a block is waited for, in milliseconds.
pub const LONGEST_WAIT_MS: u64 = 15000;

/// What to do while a block is analysed.
#[derive(Clone, Copy, Debug, PartialEq, Eq, Structural)]
pub enum Wait {
    Done,
    GiveUp,
    Sleep,
}

/// Whether to go on waiting for an analysis: until there is a result, and not beyond the deadline.
pub fn next_wait(found: bool, now_ms: u64, deadline_ms: u64) -> (r: Wait)
    ensures
        r == (if found {
            Wait::Done
        } else if now_ms >= deadline_ms {
            Wait::GiveUp
        } else {
            Wait::Sleep
        }),
{
    if found {
        Wait::Done
    } else if now_ms >= deadline_ms {
        Wait::GiveUp
    } else {
        Wait::Sleep
    }
}

/// The blocks that were analysed lately, the last one at the end.
pub struct RecentBlocks {
    pub ids: Vec<usize>,
}

/// `v` without its `x`s.
pub open spec fn without(v: Seq<usize>, x: usize, n: int) -> Seq<usize>
    decreases n,
{
    if n <= 0 {
        Seq::empty()
    } else if v[n - 1] == x {
        without(v, x, n - 1)
    } else {
        without(v, x, n - 1).push(v[n - 1])
    }
}

/// The list once a block was used: the block comes last; the list starts anew where it would get
/// too long.
pub open spec fn touched(v: Seq<usize>, id: usize) -> Seq<usize> {
    let all: Seq<usize> = without(v, id, v.len() as int).push(id);
    if all.len() > 96 {
        seq![id]
    } else {
        all
    }
}

impl RecentBlocks {
    /// Whether no block is listed twice and there are not too many.
    pub open spec fn sound(self) -> bool {
        self.ids@.no_duplicates() && self.ids@.len() <= 96
    }

    pub fn new() -> (r: RecentBlocks)
        ensures
            r.ids@ == Seq::<usize>::empty(),
            r.sound(),
    {
        RecentBlocks { ids: Vec::new() }
    }

    /// Moves a block to the end; tells whether everything before it is forgotten.
    pub fn touch_buffer_id(self, id: usize) -> (r: (RecentBlocks, bool))
        requires
            self.sound(),
        ensures
            r.0.ids@ == touched(self.ids@, id),
            r.0.sound(),
            r.1 == (without(self.ids@, id, self.ids@.len() as int).len() >= 96),
    {
        let old_ids: Vec<usize> = self.ids;
        let mut out: Vec<usize> = Vec::new();
        let mut i: usize = 0;
        while i < old_ids.len()
            invariant
                i <= old_ids@.len(),
                out@ == without(old_ids@, id, i as int),
            decreases old_ids@.len() - i,
        {
            if old_ids[i] != id {
                out.push(old_ids[i]);
            }
            i += 1;
        }
        proof {
            without_is_distinct(old_ids@, id, old_ids@.len() as int);
        }
        if out.len() >= 96 {
            let r: Vec<usize> = vec![id];
            assert(r@ =~= seq![id]);
            return (RecentBlocks { ids: r }, true);
        }
        out.push(id);
        (RecentBlocks { ids: out }, false)
    }
}

proof fn without_is_distinct(v: Seq<usize>, x: usize, n: int)
    requires
        v.no_duplicates(),
        0 <= n <= v.len(),
    ensures
        without(v, x, n).no_duplicates(),
        without(v, x, n).len() <= n,
        forall|k: int|
            0 <= k < without(v, x, n).len() ==> #[trigger] without(v, x, n)[k] != x && exists|j: int|

                0 <= j < n && v[j] == without(v, x, n)[k],
    decreases n,
{
    if n > 0 {
        without_is_distinct(v, x, n - 1);
        let before: Seq<usize> = without(v, x, n - 1);
        let all: Seq<usize> = without(v, x, n);
        assert forall|k: int| 0 <= k < all.len() implies #[trigger] all[k] != x && exists|j: int|
            0 <= j < n && v[j] == all[k] by {
            if k < before.len() {
                assert(all[k] == before[k]);
                let j: int = choose|j: int| 0 <= j < n - 1 && v[j] == before[k];
                assert(v[j] == all[k]);
            } else {
                assert(v[n - 1] == all[k]);
            }
        }
        assert forall|a: int, b: int| 0 <= a < b < all.len() implies all[a] != all[b] by {
            if b == before.len() {
                assert(all[a] == before[a]);
                let j: int = choose|j: int| 0 <= j < n - 1 && v[j] == before[a];
                assert(v[j] != v[n - 1]);
            } else {
                assert(all[a] == before[a] && all[b] == before[b]);
            }
        }
    }
}

/// The style of the character at `i`: `base`, overlaid by each of the first `n` ranges that it lies
/// in.
pub open spec fn style_at(ranges: Seq<StyledRange>, base: Style, i: int, n: int) -> Style
    decreases n,
{
    if n <= 0 {
        base
    } else {
        let before: Style = style_at(ranges, base, i, n - 1);
        let r: StyledRange = ranges[n - 1];
        if r.start <= i < r.end {
            before.patch(base.patch(r.style))
        } else {
            before
        }
    }
}

fn find_style_at(ranges: &Vec<StyledRange>, base: Style, i: usize) -> (r: Style)
    ensures
        r == style_at(ranges@, base, i as int, ranges@.len() as int),
{
    let mut look: Style = base;
    let mut n: usize = 0;
    while n < ranges.len()
        invariant
            n <= ranges@.len(),
            look == style_at(ranges@, base, i as int, n as int),
        decreases ranges@.len() - n,
    {
        let r: StyledRange = ranges[n];
        if r.start <= i && i < r.end {
            look = look.patch(base.patch(r.style));
        }
        n += 1;
    }
    look
}

/// Code on its way into lines: the lines that are done, the pieces of the open line, the
/// characters of the open piece with their style, and the cells taken.
pub struct Laying {
    pub done: Seq<Seq<Piece>>,
    pub line: Seq<Piece>,
    pub open: Seq<char>,
    pub look: Style,
    pub cells: int,
}

/// The open line with its open piece.
pub open spec fn line_of(f: Laying) -> Seq<Piece> {
    if f.open.len() > 0 {
        f.line.push(style::piece(f.open, f.look))
    } else {
        f.line
    }
}

/// One more character of this style and width: on a new line where it does not fit, in a new piece
/// where its style is another one.
pub open spec fn laid(f: Laying, c: char, look: Style, need: int, width: int) -> Laying {
    let g: Laying = if columns::leaves(f.cells, need, width) && f.open.len() > 0 {
        Laying {
            done: f.done.push(line_of(f)),
            line: Seq::empty(),
            open: Seq::empty(),
            look,
            cells: 0,
        }
    } else {
        f
    };
    let h: Laying = if g.look != look {
        Laying { line: line_of(g), open: Seq::empty(), ..g }
    } else {
        g
    };
    Laying { open: h.open.push(c), look, cells: h.cells + need, ..h }
}

/// So many spaces more.
pub open spec fn laid_spaces(f: Laying, look: Style, n: int, width: int) -> Laying
    decreases n,
{
    if n <= 0 {
        f
    } else {
        laid(laid_spaces(f, look, n - 1, width), ' ', look, 1, width)
    }
}

/// The first `n` characters laid out.
pub open spec fn laid_upto(
    s: Seq<char>,
    ranges: Seq<StyledRange>,
    base: Style,
    width: int,
    n: int,
) -> Laying
    decreases n,
{
    if n <= 0 {
        Laying {
            done: Seq::empty(),
            line: Seq::empty(),
            open: Seq::empty(),
            look: style_at(ranges, base, 0, ranges.len() as int),
            cells: 0,
        }
    } else {
        let f: Laying = laid_upto(s, ranges, base, width, n - 1);
        let look: Style = style_at(ranges, base, n - 1, ranges.len() as int);
        if s[n - 1] == '\t' {
            laid_spaces(f, look, columns::tab_cells(f.cells, width), width)
        } else {
            laid(f, s[n - 1], look, columns::cells(s[n - 1]), width)
        }
    }
}

/// Analysed code in lines of at most `width` cells.
pub open spec fn code_rows(
    s: Seq<char>,
    ranges: Seq<StyledRange>,
    base: Style,
    width: int,
) -> Seq<Seq<Piece>> {
    if s.len() == 0 {
        seq![seq![style::piece(Seq::empty(), base)]]
    } else {
        let end: Laying = laid_upto(s, ranges, base, text::max_int(width, 1), s.len() as int);
        end.done.push(line_of(end))
    }
}

/// Code on its way into lines.
struct Layer {
    done: Vec<Line>,
    line: Vec<Span>,
    open: Vec<char>,
    look: Style,
    cells: usize,
}

spec fn layer_view(l: Layer) -> Laying {
    Laying {
        done: style::rows(l.done@),
        line: style::pieces(l.line@),
        open: l.open@,
        look: l.look,
        cells: l.cells as int,
    }
}

fn close_line(line: Vec<Span>, open: Vec<char>, look: Style) -> (r: Vec<Span>)
    ensures
        style::pieces(r@) == (if open@.len() > 0 {
            style::pieces(line@).push(style::piece(open@, look))
        } else {
            style::pieces(line@)
        }),
{
    broadcast use style::group_lines;

    let mut r: Vec<Span> = line;
    if open.len() > 0 {
        r.push(style::styled(text::text_of(&open), look));
    }
    r
}

fn lay(l: Layer, c: char, look: Style, need: usize, width: usize) -> (r: Layer)
    requires
        1 <= need <= 3,
        width >= 1,
        l.cells <= width || l.cells <= 3,
        l.open@.len() == 0 ==> l.cells == 0,
    ensures
        layer_view(r) == laid(layer_view(l), c, look, need as int, width as int),
        r.cells <= width || r.cells <= 3,
        r.open@.len() > 0,
{
    broadcast use style::group_lines;

    let mut out: Layer = l;
    if columns::overflows(out.cells, need, width) && out.open.len() > 0 {
        let spans: Vec<Span> = close_line(out.line, out.open, out.look);
        let mut done: Vec<Line> = out.done;
        done.push(Line { spans });
        out = Layer { done, line: Vec::new(), open: Vec::new(), look, cells: 0 };
        assert(out.open@ =~= Seq::<char>::empty());
        assert(style::pieces(out.line@) =~= Seq::<Piece>::empty());
    }
    if out.look != look {
        let spans: Vec<Span> = close_line(out.line, out.open, out.look);
        out = Layer { done: out.done, line: spans, open: Vec::new(), look: out.look, cells: out.cells };
        assert(out.open@ =~= Seq::<char>::empty());
    }
    let mut open: Vec<char> = out.open;
    open.push(c);
    Layer { done: out.done, line: out.line, open, look, cells: out.cells + need }
}

fn lay_spaces(l: Layer, look: Style, n: usize, width: usize) -> (r: Layer)
    requires
        width >= 1,
        l.cells <= width || l.cells <= 3,
        l.open@.len() == 0 ==> l.cells == 0,
    ensures
        layer_view(r) == laid_spaces(layer_view(l), look, n as int, width as int),
        r.cells <= width || r.cells <= 3,
        r.open@.len() == 0 ==> r.cells == 0,
{
    let ghost first: Laying = layer_view(l);
    let mut out: Layer = l;
    let mut i: usize = 0;
    while i < n
        invariant
            i <= n,
            width >= 1,
            layer_view(out) == laid_spaces(first, look, i as int, width as int),
            out.cells <= width || out.cells <= 3,
            out.open@.len() == 0 ==> out.cells == 0,
        decreases n - i,
    {
        out = lay(out, ' ', look, 1, width);
        i += 1;
    }
    out
}

pub fn syntax_highlighted_wrapped_segments(
    s: &str,
    ranges: &Vec<StyledRange>,
    base: Style,
    given: usize,
) -> (r: Vec<Line>)
    ensures
        style::rows(r@) == code_rows(s@, ranges@, base, given as int),
{
    broadcast use style::group_lines;

    if text::length(s) == 0 {
        let none: String = String::new();
        assert(none@ =~= Seq::<char>::empty());
        let r: Vec<Line> = vec![style::single(none, base)];
        assert(style::rows(r@) =~= seq![seq![style::piece(Seq::empty(), base)]]);
        return r;
    }
    let width: usize = text::max_of(given, 1);
    let v: Vec<char> = text::chars_of(s);
    let mut l: Layer = Layer {
        done: Vec::new(),
        line: Vec::new(),
        open: Vec::new(),
        look: find_style_at(ranges, base, 0),
        cells: 0,
    };
    assert(l.open@ =~= Seq::<char>::empty());
    assert(style::pieces(l.line@) =~= Seq::<Piece>::empty());
    assert(style::rows(l.done@) =~= Seq::<Seq<Piece>>::empty());
    let mut i: usize = 0;
    while i < v.len()
        invariant
            i <= v@.len(),
            v@ == s@,
            width >= 1,
            layer_view(l) == laid_upto(s@, ranges@, base, width as int, i as int),
            l.cells <= width || l.cells <= 3,
            l.open@.len() == 0 ==> l.cells == 0,
        decreases v@.len() - i,
    {
        let look: Style = find_style_at(ranges, base, i);
        if v[i] == '\t' {
            let n: usize = columns::next_tab_width(l.cells, width);
            l = lay_spaces(l, look, n, width);
        } else {
            let need: usize = columns::cell_width(v[i]);
            l = lay(l, v[i], look, need, width);
        }
        i += 1;
    }
    let spans: Vec<Span> = close_line(l.line, l.open, l.look);
    let mut done: Vec<Line> = l.done;
    done.push(Line { spans });
    done
}

/// The texts of lines.
pub open spec fn row_texts(rows: Seq<Seq<Piece>>) -> Seq<Seq<char>> {
    Seq::new(rows.len(), |i: int| style::plain_text(rows[i]))
}

/// The text that has been laid out.
pub open spec fn laid_text(f: Laying) -> Seq<char> {
    text::run_together(row_texts(f.done)) + style::plain_text(line_of(f))
}

proof fn laying_keeps_text(f: Laying, c: char, look: Style, need: int, width: int)
    ensures
        laid_text(laid(f, c, look, need, width)) == laid_text(f).push(c),
{
    let g: Laying = if columns::leaves(f.cells, need, width) && f.open.len() > 0 {
        Laying {
            done: f.done.push(line_of(f)),
            line: Seq::empty(),
            open: Seq::empty(),
            look,
            cells: 0,
        }
    } else {
        f
    };
    assert(laid_text(g) =~= laid_text(f)) by {
        if columns::leaves(f.cells, need, width) && f.open.len() > 0 {
            assert(row_texts(g.done).drop_last() =~= row_texts(f.done));
            assert(row_texts(g.done).last() == style::plain_text(line_of(f)));
        }
    }
    let h: Laying = if g.look != look {
        Laying { line: line_of(g), open: Seq::empty(), ..g }
    } else {
        g
    };
    assert(laid_text(h) == laid_text(g));
    let end: Laying = laid(f, c, look, need, width);
    style::plain_text_push(h.line, style::piece(h.open, h.look));
    style::plain_text_push(h.line, style::piece(h.open.push(c), look));
    assert(style::plain_text(line_of(h)) =~= style::plain_text(h.line) + h.open);
    assert(style::plain_text(line_of(end)) =~= style::plain_text(h.line) + h.open.push(c));
    assert(laid_text(end) =~= laid_text(h).push(c));
}

proof fn prefix_keeps_text(s: Seq<char>, ranges: Seq<StyledRange>, base: Style, width: int, n: int)
    requires
        0 <= n <= s.len(),
        !text::has(s, '\t'),
    ensures
        laid_text(laid_upto(s, ranges, base, width, n)) == s.take(n),
    decreases n,
{
    if n > 0 {
        prefix_keeps_text(s, ranges, base, width, n - 1);
        text::char_at_or_after_is_first(s, '\t', 0);
        assert(s[n - 1] != '\t');
        laying_keeps_text(
            laid_upto(s, ranges, base, width, n - 1),
            s[n - 1],
            style_at(ranges, base, n - 1, ranges.len() as int),
            columns::cells(s[n - 1]),
            width,
        );
        assert(s.take(n) =~= s.take(n - 1).push(s[n - 1]));
    } else {
        assert(laid_text(laid_upto(s, ranges, base, width, 0)) =~= s.take(0));
    }
}

/// Colouring and wrapping a line of code without tabs changes none of its characters.
pub proof fn code_keeps_text(s: Seq<char>, ranges: Seq<StyledRange>, base: Style, width: int)
    requires
        !text::has(s, '\t'),
    ensures
        text::run_together(row_texts(code_rows(s, ranges, base, width))) == s,
{
    let rows: Seq<Seq<Piece>> = code_rows(s, ranges, base, width);
    if s.len() == 0 {
        style::one_piece_text(style::piece(Seq::empty(), base));
        assert(row_texts(rows).drop_last() =~= Seq::<Seq<char>>::empty());
        assert(row_texts(rows).last() =~= Seq::<char>::empty());
        reveal_with_fuel(text::run_together, 2);
        assert(text::run_together(row_texts(rows)) =~= s);
    } else {
        let w: int = text::max_int(width, 1);
        prefix_keeps_text(s, ranges, base, w, s.len() as int);
        let end: Laying = laid_upto(s, ranges, base, w, s.len() as int);
        assert(row_texts(rows).drop_last() =~= row_texts(end.done));
        assert(row_texts(rows).last() == style::plain_text(line_of(end)));
        assert(s.take(s.len() as int) =~= s);
    }
}

/// A number at the right of its column; a wider one as it is.
pub open spec fn gutter(s: Seq<char>, width: int) -> Seq<char> {
    " "@ + text::fill(' ', text::monus(width, s.len() as int) as nat) + s + " │ "@
}

fn gutter_of(s: &str, width: usize) -> (r: String)
    ensures
        r@ == gutter(s@, width as int),
{
    let pad: String = text::filled(' ', text::minus(width, text::length(s)));
    text::cat4(" ", pad.as_str(), s, " │ ")
}

/// The background of code.
pub open spec fn code_bg(theme: Theme) -> Color {
    style::dimmed(theme.cursor_line_bg, theme.background, 35)
}

/// Lines with one prefix before the first and another one before the others.
pub open spec fn with_gutter(
    body: Seq<Seq<Piece>>,
    first: Seq<char>,
    other: Seq<char>,
    look: Style,
) -> Seq<Seq<Piece>> {
    Seq::new(
        body.len(),
        |i: int|
            seq![
                style::piece(
                    if i == 0 {
                        first
                    } else {
                        other
                    },
                    look,
                ),
            ] + body[i],
    )
}

/// A line of code behind its number.
pub open spec fn numbered(
    line_no: Option<nat>,
    s: Seq<char>,
    json: bool,
    mapped: Option<Seq<StyledRange>>,
    theme: Theme,
    width: int,
    gutter_width: int,
) -> Seq<Seq<Piece>> {
    let look: Style = Style::plain().fg(theme.border).bg(code_bg(theme)).dim();
    let base: Style = Style::plain().fg(theme.foreground).bg(code_bg(theme));
    let first: Seq<char> = gutter(
        match line_no {
            Some(n) => text::decimal(n),
            None => ""@,
        },
        gutter_width,
    );
    let other: Seq<char> = gutter(""@, gutter_width);
    let room: int = lines::room(first, width);
    match mapped {
        Some(ranges) => with_gutter(code_rows(s, ranges, base, room), first, other, look),
        None => lines::prefixed(
            wrap::visual_lines(s, room),
            style::piece(first, look),
            style::piece(other, look),
            if json {
                Fill::Json(base)
            } else {
                Fill::Marked(base)
            },
            theme,
        ),
    }
}

fn push_with_gutter(out: &mut Vec<Line>, body: Vec<Line>, first: &str, other: &str, look: Style)
    ensures
        style::rows(final(out)@) == style::rows(old(out)@) + with_gutter(
            style::rows(body@),
            first@,
            other@,
            look,
        ),
{
    let ghost before: Seq<Seq<Piece>> = style::rows(out@);
    let ghost rows: Seq<Seq<Piece>> = style::rows(body@);
    let ghost all: Seq<Seq<Piece>> = with_gutter(rows, first@, other@, look);
    let ghost orig: Seq<Line> = body@;
    let mut rest: Vec<Line> = body;
    let n: usize = rest.len();
    let mut i: usize = 0;
    assert(before + all.take(0) =~= before);
    while i < n
        invariant
            i <= n,
            n == orig.len(),
            rows == style::rows(orig),
            rest@ == orig.subrange(i as int, n as int),
            all == with_gutter(rows, first@, other@, look),
            style::rows(out@) == before + all.take(i as int),
        decreases n - i,
    {
        assert(rows[i as int] == orig[i as int]@);
        assert(rest@[0] == orig[i as int]);
        let line: Line = rest.remove(0);
        assert(rest@ =~= orig.subrange(i + 1, n as int));
        let ghost behind: Seq<Piece> = line@;
        let prefix: Span = style::span(
            if i == 0 {
                first
            } else {
                other
            },
            look,
        );
        let ghost head: Piece = prefix@;
        let mut spans: Vec<Span> = vec![prefix];
        let mut more: Vec<Span> = line.spans;
        spans.append(&mut more);
        assert(style::pieces(spans@) =~= seq![head] + behind);
        style::push_line(out, Line { spans });
        i += 1;
        assert(before + all.take(i as int) =~= before + all.take(i - 1) + seq![all[i - 1]]);
    }
    assert(all.take(i as int) =~= all);
}

/// Optional ranges as a value.
pub open spec fn ranges(m: Option<&Vec<StyledRange>>) -> Option<Seq<StyledRange>> {
    match m {
        Some(v) => Some(v@),
        None => None,
    }
}

/// An optional number as a value.
pub open spec fn opt_nat(n: Option<usize>) -> Option<nat> {
    match n {
        Some(k) => Some(k as nat),
        None => None,
    }
}

pub fn render_numbered_code_line(
    out: &mut Vec<Line>,
    line_no: Option<usize>,
    s: &str,
    json: bool,
    mapped: Option<&Vec<StyledRange>>,
    theme: &Theme,
    width: usize,
    gutter_width: usize,
)
    ensures
        style::rows(final(out)@) == style::rows(old(out)@) + numbered(
            opt_nat(line_no),
            s@,
            json,
            ranges(mapped),
            *theme,
            width as int,
            gutter_width as int,
        ),
{
    let bg: Color = style::dim_bg_towards(theme.cursor_line_bg, theme.background, 35);
    let look: Style = Style::plain().fg(theme.border).bg(bg).dim();
    let base: Style = Style::plain().fg(theme.foreground).bg(bg);
    let number: String = match line_no {
        Some(n) => text::decimal_usize(n),
        None => text::copy(""),
    };
    let first: String = gutter_of(number.as_str(), gutter_width);
    let other: String = gutter_of("", gutter_width);
    let room: usize = lines::room_behind(first.as_str(), width);
    match mapped {
        Some(v) => {
            let body: Vec<Line> = syntax_highlighted_wrapped_segments(s, v, base, room);
            push_with_gutter(out, body, first.as_str(), other.as_str(), look);
        },
        None => {
            let segs: Vec<String> = wrap::wrap_visual_line(s, room);
            lines::push_prefixed(
                out,
                &segs,
                first.as_str(),
                look,
                other.as_str(),
                look,
                if json {
                    Fill::Json(base)
                } else {
                    Fill::Marked(base)
                },
                theme,
            );
        },
    }
}

/// A line that is shown as code without a number.
pub open spec fn unnumbered(s: Seq<char>, theme: Theme, width: int) -> Seq<Seq<Piece>> {
    numbered(None, s, false, None, theme, width, 1)
}

pub fn render_code_block_line(out: &mut Vec<Line>, s: &str, theme: &Theme, width: usize)
    ensures
        style::rows(final(out)@) == style::rows(old(out)@) + unnumbered(s@, *theme, width as int),
{
    render_numbered_code_line(out, None, s, false, None, theme, width, 1);
}

/// The analysed block from place `i` on that has this grammar and text.
pub open spec fn block_from(blocks: Seq<CodeBlock>, lang: Seq<char>, code: Seq<char>, i: int) -> Option<
    CodeBlock,
>
    decreases blocks.len() - i,
{
    if i < 0 || i >= blocks.len() {
        None
    } else if blocks[i].grammar@ == lang && blocks[i].text@ == code {
        Some(blocks[i])
    } else {
        block_from(blocks, lang, code, i + 1)
    }
}

fn find_block<'a>(blocks: &'a Vec<CodeBlock>, lang: &str, code: &str) -> (r: Option<&'a CodeBlock>)
    ensures
        match r {
            Some(b) => block_from(blocks@, lang@, code@, 0) == Some(*b),
            None => block_from(blocks@, lang@, code@, 0) is None,
        },
{
    let mut i: usize = 0;
    while i < blocks.len()
        invariant
            i <= blocks@.len(),
            block_from(blocks@, lang@, code@, 0) == block_from(blocks@, lang@, code@, i as int),
        decreases blocks@.len() - i,
    {
        if text::str_eq(blocks[i].grammar.as_str(), lang) && text::str_eq(
            blocks[i].text.as_str(),
            code,
        ) {
            return Some(&blocks[i]);
        }
        i += 1;
    }
    None
}

/// What is known of a block of code.
pub open spec fn analysed(syn: SyntaxTables, lang: Seq<char>, code: Seq<char>) -> Option<CodeBlock> {
    match grammar(syn, lang, code) {
        Some(g) => block_from(syn.blocks@, g, code, 0),
        None => None,
    }
}

pub fn highlight_code_block<'a>(syn: &'a SyntaxTables, lang: &str, code: &str) -> (r: Option<
    &'a CodeBlock,
>)
    ensures
        match r {
            Some(b) => analysed(*syn, lang@, code@) == Some(*b),
            None => analysed(*syn, lang@, code@) is None,
        },
{
    match language_id_for_code_block(syn, lang, code) {
        Some(g) => find_block(&syn.blocks, g.as_str(), code),
        None => None,
    }
}

/// What is known of a line of an analysed block.
pub open spec fn mapped_line(block: Option<CodeBlock>, i: int) -> Option<Seq<StyledRange>> {
    match block {
        Some(b) => if 0 <= i < b.lines@.len() {
            match b.lines@[i] {
                Some(v) => Some(v@),
                None => None,
            }
        } else {
            None
        },
        None => None,
    }
}

fn find_mapped_line<'a>(block: Option<&'a CodeBlock>, i: usize) -> (r: Option<&'a Vec<StyledRange>>)
    ensures
        ranges(r) == mapped_line(
            match block {
                Some(b) => Some(*b),
                None => None,
            },
            i as int,
        ),
{
    match block {
        Some(b) => if i < b.lines.len() {
            match &b.lines[i] {
                Some(v) => Some(v),
                None => None,
            }
        } else {
            None
        },
        None => None,
    }
}

/// Lines of code: those of a JSON document where it could be laid out.
pub open spec fn lines_or_laid_out(code: Seq<Seq<char>>, laid_out: Option<Seq<char>>) -> Seq<
    Seq<char>,
> {
    match laid_out {
        Some(p) => text::lines_of(p),
        None => code,
    }
}

/// The lines of code, or those that it was laid out in.
pub fn code_lines_with(code: Vec<String>, laid_out: Option<String>) -> (r: Vec<String>)
    ensures
        text::texts(r@) == lines_or_laid_out(text::texts(code@), text::opt_text(laid_out)),
{
    match laid_out {
        Some(p) => text::lines(p.as_str()),
        None => code,
    }
}

/// Whether code is to be laid out as JSON.
pub open spec fn lay_out(syn: SyntaxTables, code: Seq<Seq<char>>, tag: Seq<char>) -> bool {
    is_json(syn, tag) || (tag.len() == 0 && json_start(
        text::trimmed(text::joined(code, seq!['\n'])),
    ))
}

/// The lines of a block of code as they are shown.
pub open spec fn normalized(syn: SyntaxTables, code: Seq<Seq<char>>, tag: Seq<char>) -> Seq<Seq<char>> {
    lines_or_laid_out(
        code,
        if lay_out(syn, code, tag) {
            mcp::pretty(text::trimmed(text::joined(code, seq!['\n'])))
        } else {
            None
        },
    )
}

pub fn normalize_code_block_lines(syn: &SyntaxTables, code: Vec<String>, tag: &str) -> (r: Vec<String>)
    ensures
        text::texts(r@) == normalized(*syn, text::texts(code@), tag@),
{
    proof {
        reveal_strlit("\n");
        assert("\n"@ =~= seq!['\n']);
    }
    let whole: String = text::join(&code, "\n");
    let bare: String = text::trim(whole.as_str());
    let wanted: bool = is_json_code_lang(syn, tag) || (text::length(tag) == 0 && is_json_start(
        bare.as_str(),
    ));
    let laid_out: Option<String> = if wanted {
        mcp::pretty_json(bare.as_str())
    } else {
        None
    };
    code_lines_with(code, laid_out)
}

/// The first `n` lines of a block.
pub open spec fn block_rows(
    code: Seq<Seq<char>>,
    block: Option<CodeBlock>,
    json: bool,
    theme: Theme,
    width: int,
    gutter_width: int,
    n: int,
) -> Seq<Seq<Piece>>
    decreases n,
{
    if n <= 0 {
        Seq::empty()
    } else {
        block_rows(code, block, json, theme, width, gutter_width, n - 1) + numbered(
            Some(n as nat),
            code[n - 1],
            json,
            mapped_line(block, n - 1),
            theme,
            width,
            gutter_width,
        )
    }
}

/// A block of code, given the lines that are shown.
pub open spec fn shown_block(
    syn: SyntaxTables,
    tag: Seq<char>,
    code: Seq<Seq<char>>,
    theme: Theme,
    width: int,
) -> Seq<Seq<Piece>> {
    let lang: Seq<char> = canonical(syn, tag);
    let block: Option<CodeBlock> = analysed(syn, lang, text::joined(code, seq!['\n']));
    let n: int = code.len() as int;
    let digits: int = text::decimal(text::max_int(n, 1) as nat).len() as int;
    let json: bool = is_json(syn, lang);
    seq![
        lines::note(
            if lang.len() == 0 {
                " code block"@
            } else {
                " code block ("@ + lang + ")"@
            },
            theme.accent,
            theme,
        ),
    ] + block_rows(code, block, json, theme, width, digits, n) + (if n == 0 {
        numbered(None, ""@, json, None, theme, width, digits)
    } else {
        Seq::empty()
    })
}

/// A block of code.
#[verifier::opaque]
pub open spec fn fenced(
    syn: SyntaxTables,
    tag: Seq<char>,
    code: Seq<Seq<char>>,
    theme: Theme,
    width: int,
) -> Seq<Seq<Piece>> {
    shown_block(syn, tag, normalized(syn, code, tag), theme, width)
}

/// The block of code with these lines.
pub fn render_shown_block(
    out: &mut Vec<Line>,
    syn: &SyntaxTables,
    tag: &str,
    code: &Vec<String>,
    theme: &Theme,
    width: usize,
)
    ensures
        style::rows(final(out)@) == style::rows(old(out)@) + shown_block(
            *syn,
            tag@,
            text::texts(code@),
            *theme,
            width as int,
        ),
{
    broadcast use style::group_line_lists;

    proof {
        reveal_strlit("\n");
        assert("\n"@ =~= seq!['\n']);
    }
    let ghost all: Seq<Seq<char>> = text::texts(code@);
    let lang: String = canonical_code_lang(syn, tag);
    let whole: String = text::join(code, "\n");
    let block: Option<&CodeBlock> = highlight_code_block(syn, lang.as_str(), whole.as_str());
    let ghost known: Option<CodeBlock> = analysed(*syn, lang@, whole@);
    let n: usize = code.len();
    assert(all.len() == n);
    let count: String = text::decimal_usize(text::max_of(n, 1));
    let digits: usize = text::length(count.as_str());
    let json: bool = is_json_code_lang(syn, lang.as_str());
    let label: String = if text::length(lang.as_str()) == 0 {
        text::copy(" code block")
    } else {
        text::cat3(" code block (", lang.as_str(), ")")
    };
    style::push_line(out, lines::popup_note_line(label.as_str(), theme.accent, theme));
    let ghost before: Seq<Seq<Piece>> = style::rows(out@);
    let mut i: usize = 0;
    while i < n
        invariant
            i <= n == code@.len(),
            all == text::texts(code@),
            known == (match block {
                Some(b) => Some(*b),
                None => None,
            }),
            style::rows(out@) == before + block_rows(
                all,
                known,
                json,
                *theme,
                width as int,
                digits as int,
                i as int,
            ),
        decreases n - i,
    {
        broadcast use style::group_line_lists;

        assert(all[i as int] == code@[i as int]@);
        let mapped: Option<&Vec<StyledRange>> = find_mapped_line(block, i);
        render_numbered_code_line(
            out,
            Some(i + 1),
            code[i].as_str(),
            json,
            mapped,
            theme,
            width,
            digits,
        );
        i += 1;
    }
    if n == 0 {
        render_numbered_code_line(out, None, "", json, None, theme, width, digits);
    }
}

pub fn render_fenced_code_block(
    out: &mut Vec<Line>,
    syn: &SyntaxTables,
    tag: &str,
    code: Vec<String>,
    theme: &Theme,
    width: usize,
)
    ensures
        style::rows(final(out)@) == style::rows(old(out)@) + fenced(
            *syn,
            tag@,
            text::texts(code@),
            *theme,
            width as int,
        ),
{
    reveal(fenced);
    let shown: Vec<String> = normalize_code_block_lines(syn, code, tag);
    render_shown_block(out, syn, tag, &shown, theme, width);
}

} // verus!
