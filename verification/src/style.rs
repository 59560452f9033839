//! Colours, styles and styled lines.

use vstd::prelude::*;

use crate::text;

verus! {

/// A terminal colour.
#[derive(Clone, Copy, Debug, PartialEq, Eq, Structural)]
pub enum Color {
    Reset,
    Black,
    Red,
    Green,
    Yellow,
    Blue,
    Magenta,
    Cyan,
    Gray,
    DarkGray,
    LightRed,
    LightGreen,
    LightYellow,
    LightBlue,
    LightMagenta,
    LightCyan,
    White,
    Rgb(u8, u8, u8),
    Indexed(u8),
}

/// The look of a piece of text: what is not set is left as it is on the screen.
#[derive(Clone, Copy, Debug, PartialEq, Eq, Structural)]
pub struct Style {
    pub fg: Option<Color>,
    pub bg: Option<Color>,
    pub bold: bool,
    pub dim: bool,
    pub italic: bool,
    pub underlined: bool,
    pub reversed: bool,
}

impl Style {
    /// The style that sets nothing.
    #[verifier::allow_in_spec]
    pub fn plain() -> Style
        returns
            (Style {
                fg: None,
                bg: None,
                bold: false,
                dim: false,
                italic: false,
                underlined: false,
                reversed: false,
            }),
    {
        Style {
            fg: None,
            bg: None,
            bold: false,
            dim: false,
            italic: false,
            underlined: false,
            reversed: false,
        }
    }

    #[verifier::allow_in_spec]
    pub fn fg(self, color: Color) -> Style
        returns
            (Style { fg: Some(color), ..self }),
    {
        Style { fg: Some(color), ..self }
    }

    #[verifier::allow_in_spec]
    pub fn bg(self, color: Color) -> Style
        returns
            (Style { bg: Some(color), ..self }),
    {
        Style { bg: Some(color), ..self }
    }

    #[verifier::allow_in_spec]
    pub fn bold(self) -> Style
        returns
            (Style { bold: true, ..self }),
    {
        Style { bold: true, ..self }
    }

    #[verifier::allow_in_spec]
    pub fn dim(self) -> Style
        returns
            (Style { dim: true, ..self }),
    {
        Style { dim: true, ..self }
    }

    #[verifier::allow_in_spec]
    pub fn italic(self) -> Style
        returns
            (Style { italic: true, ..self }),
    {
        Style { italic: true, ..self }
    }

    #[verifier::allow_in_spec]
    pub fn underlined(self) -> Style
        returns
            (Style { underlined: true, ..self }),
    {
        Style { underlined: true, ..self }
    }

    #[verifier::allow_in_spec]
    pub fn reversed(self) -> Style
        returns
            (Style { reversed: true, ..self }),
    {
        Style { reversed: true, ..self }
    }

    /// `self` overlaid with what `other` sets.
    #[verifier::allow_in_spec]
    pub fn patch(self, other: Style) -> Style
        returns
            (Style {
                fg: (if other.fg is Some {
                    other.fg
                } else {
                    self.fg
                }),
                bg: (if other.bg is Some {
                    other.bg
                } else {
                    self.bg
                }),
                bold: self.bold || other.bold,
                dim: self.dim || other.dim,
                italic: self.italic || other.italic,
                underlined: self.underlined || other.underlined,
                reversed: self.reversed || other.reversed,
            }),
    {
        Style {
            fg: if other.fg.is_some() {
                other.fg
            } else {
                self.fg
            },
            bg: if other.bg.is_some() {
                other.bg
            } else {
                self.bg
            },
            bold: self.bold || other.bold,
            dim: self.dim || other.dim,
            italic: self.italic || other.italic,
            underlined: self.underlined || other.underlined,
            reversed: self.reversed || other.reversed,
        }
    }
}

/// A piece of text in one style.
#[derive(Debug)]
pub struct Span {
    pub text: String,
    pub style: Style,
}

/// What a span shows.
pub struct Piece {
    pub text: Seq<char>,
    pub style: Style,
}

impl View for Span {
    type V = Piece;

    open spec fn view(&self) -> Piece {
        Piece { text: self.text@, style: self.style }
    }
}

/// One line of styled text.
#[derive(Debug)]
pub struct Line {
    pub spans: Vec<Span>,
}

/// What a sequence of spans shows.
pub open spec fn pieces(v: Seq<Span>) -> Seq<Piece> {
    Seq::new(v.len(), |i: int| v[i]@)
}

impl View for Line {
    type V = Seq<Piece>;

    open spec fn view(&self) -> Seq<Piece> {
        pieces(self.spans@)
    }
}

/// What a sequence of lines shows.
pub open spec fn rows(v: Seq<Line>) -> Seq<Seq<Piece>> {
    Seq::new(v.len(), |i: int| v[i]@)
}

pub broadcast proof fn pieces_push(v: Seq<Span>, s: Span)
    ensures
        #[trigger] pieces(v.push(s)) == pieces(v).push(s@),
{
    assert(pieces(v.push(s)) =~= pieces(v).push(s@));
}

pub broadcast proof fn pieces_add(a: Seq<Span>, b: Seq<Span>)
    ensures
        #[trigger] pieces(a + b) == pieces(a) + pieces(b),
{
    assert(pieces(a + b) =~= pieces(a) + pieces(b));
}

pub broadcast proof fn pieces_empty()
    ensures
        #[trigger] pieces(Seq::<Span>::empty()) == Seq::<Piece>::empty(),
{
    assert(pieces(Seq::<Span>::empty()) =~= Seq::<Piece>::empty());
}

pub broadcast proof fn rows_push(v: Seq<Line>, s: Line)
    ensures
        #[trigger] rows(v.push(s)) == rows(v).push(s@),
{
    assert(rows(v.push(s)) =~= rows(v).push(s@));
}

pub broadcast proof fn rows_add(a: Seq<Line>, b: Seq<Line>)
    ensures
        #[trigger] rows(a + b) == rows(a) + rows(b),
{
    assert(rows(a + b) =~= rows(a) + rows(b));
}

pub broadcast proof fn rows_empty()
    ensures
        #[trigger] rows(Seq::<Line>::empty()) == Seq::<Seq<Piece>>::empty(),
{
    assert(rows(Seq::<Line>::empty()) =~= Seq::<Seq<Piece>>::empty());
}

pub broadcast group group_lines {
    pieces_push,
    pieces_add,
    pieces_empty,
    rows_push,
    rows_add,
    rows_empty,
}

pub broadcast proof fn pieces_associate(a: Seq<Piece>, b: Seq<Piece>, c: Seq<Piece>)
    ensures
        #[trigger] ((a + b) + c) == a + (b + c),
{
    assert((a + b) + c =~= a + (b + c));
}

pub broadcast proof fn no_pieces_behind(a: Seq<Piece>)
    ensures
        #[trigger] (a + Seq::<Piece>::empty()) == a,
{
    assert(a + Seq::<Piece>::empty() =~= a);
}

pub broadcast proof fn one_piece_behind(a: Seq<Piece>, p: Piece)
    ensures
        #[trigger] a.push(p) == a + seq![p],
{
    assert(a.push(p) =~= a + seq![p]);
}

pub broadcast group group_piece_lists {
    pieces_associate,
    no_pieces_behind,
    one_piece_behind,
}

pub broadcast proof fn lines_associate(
    a: Seq<Seq<Piece>>,
    b: Seq<Seq<Piece>>,
    c: Seq<Seq<Piece>>,
)
    ensures
        #[trigger] ((a + b) + c) == a + (b + c),
{
    assert((a + b) + c =~= a + (b + c));
}

pub broadcast proof fn no_lines_behind(a: Seq<Seq<Piece>>)
    ensures
        #[trigger] (a + Seq::<Seq<Piece>>::empty()) == a,
{
    assert(a + Seq::<Seq<Piece>>::empty() =~= a);
}

pub broadcast proof fn no_lines_before(a: Seq<Seq<Piece>>)
    ensures
        #[trigger] (Seq::<Seq<Piece>>::empty() + a) == a,
{
    assert(Seq::<Seq<Piece>>::empty() + a =~= a);
}

pub broadcast group group_line_lists {
    lines_associate,
    no_lines_behind,
    no_lines_before,
}

pub fn push_line(out: &mut Vec<Line>, line: Line)
    ensures
        rows(final(out)@) == rows(old(out)@) + seq![line@],
{
    let ghost before: Seq<Seq<Piece>> = rows(out@);
    out.push(line);
    assert(rows(out@) =~= before + seq![line@]);
}

/// Puts the lines of `more` behind those of `out`.
pub fn append_lines(out: &mut Vec<Line>, more: Vec<Line>)
    ensures
        rows(final(out)@) == rows(old(out)@) + rows(more@),
{
    let ghost before: Seq<Line> = out@;
    let mut rest: Vec<Line> = more;
    out.append(&mut rest);
    assert(rows(out@) =~= rows(before) + rows(more@));
}

pub open spec fn piece(text: Seq<char>, style: Style) -> Piece {
    Piece { text, style }
}

pub fn span(text: &str, style: Style) -> (r: Span)
    ensures
        r@ == piece(text@, style),
{
    Span { text: text.to_owned(), style }
}

pub fn styled(text: String, style: Style) -> (r: Span)
    ensures
        r@ == piece(text@, style),
{
    Span { text, style }
}

/// A line of one span.
pub fn single(text: String, style: Style) -> (r: Line)
    ensures
        r@ == seq![piece(text@, style)],
{
    let s: Span = styled(text, style);
    let spans: Vec<Span> = vec![s];
    let r: Line = Line { spans };
    assert(r@ =~= seq![piece(text@, style)]);
    r
}

/// A line of one span that sets no style.
pub fn unstyled(text: String) -> (r: Line)
    ensures
        r@ == seq![piece(text@, Style::plain())],
{
    single(text, Style::plain())
}

/// A line without spans.
pub fn blank() -> (r: Line)
    ensures
        r@ == Seq::<Piece>::empty(),
{
    let r: Line = Line { spans: Vec::new() };
    assert(r@ =~= Seq::<Piece>::empty());
    r
}

/// A text in a style; nothing where it is empty.
pub open spec fn if_any(s: Seq<char>, look: Style) -> Seq<Piece> {
    if s.len() > 0 {
        seq![piece(s, look)]
    } else {
        Seq::empty()
    }
}

pub fn push_if_any(spans: &mut Vec<Span>, s: String, look: Style)
    ensures
        pieces(final(spans)@) == pieces(old(spans)@) + if_any(s@, look),
{
    broadcast use {group_lines, group_piece_lists};

    if text::length(s.as_str()) > 0 {
        spans.push(styled(s, look));
    }
}

/// The lines of a text, one behind the other, in spans that set no style.
pub open spec fn raw_pieces(s: Seq<char>) -> Seq<Piece> {
    let parts: Seq<Seq<char>> = text::lines_of(s);
    Seq::new(parts.len(), |i: int| piece(parts[i], Style::plain()))
}

pub fn raw_line(s: &str) -> (r: Line)
    ensures
        r@ == raw_pieces(s@),
{
    broadcast use group_lines;

    let parts: Vec<String> = text::lines(s);
    let ghost want: Seq<Piece> = raw_pieces(s@);
    let mut spans: Vec<Span> = Vec::new();
    let mut i: usize = 0;
    assert(pieces(spans@) =~= want.take(0));
    while i < parts.len()
        invariant
            i <= parts@.len(),
            text::texts(parts@) == text::lines_of(s@),
            want == raw_pieces(s@),
            pieces(spans@) == want.take(i as int),
        decreases parts@.len() - i,
    {
        broadcast use group_lines;

        assert(text::texts(parts@)[i as int] == parts@[i as int]@);
        spans.push(span(parts[i].as_str(), Style::plain()));
        i += 1;
        assert(want.take(i as int) =~= want.take(i - 1).push(want[i - 1]));
    }
    assert(text::texts(parts@).len() == parts@.len());
    assert(want.take(i as int) =~= want);
    Line { spans }
}

/// The text of a line without its styles.
pub open spec fn plain_text(line: Seq<Piece>) -> Seq<char>
    decreases line.len(),
{
    if line.len() == 0 {
        Seq::empty()
    } else {
        plain_text(line.drop_last()) + line.last().text
    }
}

pub proof fn plain_text_push(line: Seq<Piece>, p: Piece)
    ensures
        plain_text(line.push(p)) == plain_text(line) + p.text,
{
    assert(line.push(p).drop_last() =~= line);
}

pub proof fn plain_text_add(a: Seq<Piece>, b: Seq<Piece>)
    ensures
        plain_text(a + b) == plain_text(a) + plain_text(b),
    decreases b.len(),
{
    if b.len() == 0 {
        assert(a + b =~= a);
        assert(plain_text(a) + plain_text(b) =~= plain_text(a));
    } else {
        plain_text_add(a, b.drop_last());
        assert((a + b).drop_last() =~= a + b.drop_last());
        assert(plain_text(a) + (plain_text(b.drop_last()) + b.last().text) =~= plain_text(a)
            + plain_text(b.drop_last()) + b.last().text);
    }
}

pub proof fn one_piece_text(p: Piece)
    ensures
        plain_text(seq![p]) == p.text,
{
    reveal_with_fuel(plain_text, 2);
    assert(seq![p].drop_last() =~= Seq::<Piece>::empty());
    assert(Seq::<char>::empty() + p.text =~= p.text);
}

/// One colour channel moved `pct` percent of the way from `top` to `base`, rounded to nearest.
pub open spec fn mixed(top: u8, base: u8, pct: int) -> u8 {
    ((top * (100 - pct) + base * pct + 50) / 100) as u8
}

/// `color` moved `background_pct` percent towards `background`, where both are RGB colours.
pub open spec fn dimmed(color: Color, background: Color, background_pct: u8) -> Color {
    let pct: int = if background_pct > 100 {
        100
    } else {
        background_pct as int
    };
    match (color, background) {
        (Color::Rgb(r1, g1, b1), Color::Rgb(r0, g0, b0)) => Color::Rgb(
            mixed(r1, r0, pct),
            mixed(g1, g0, pct),
            mixed(b1, b0, pct),
        ),
        _ => color,
    }
}

proof fn mix_bounds(top: int, base: int, pct: int)
    requires
        0 <= top <= 255,
        0 <= base <= 255,
        0 <= pct <= 100,
    ensures
        0 <= top * (100 - pct) <= 25500,
        0 <= base * pct <= 25500,
        0 <= top * (100 - pct) + base * pct <= 25500,
{
    assert(0 <= top * (100 - pct) <= 255 * (100 - pct)) by (nonlinear_arith)
        requires
            0 <= top <= 255,
            0 <= pct <= 100,
    ;
    assert(0 <= base * pct <= 255 * pct) by (nonlinear_arith)
        requires
            0 <= base <= 255,
            0 <= pct <= 100,
    ;
}

fn mix(top: u8, base: u8, pct: u16) -> (r: u8)
    requires
        pct <= 100,
    ensures
        r == mixed(top, base, pct as int),
{
    proof {
        mix_bounds(top as int, base as int, pct as int);
    }
    let a: u16 = (top as u16) * (100 - pct);
    let b: u16 = (base as u16) * pct;
    ((a + b + 50) / 100) as u8
}

pub fn dim_bg_towards(color: Color, background: Color, background_pct: u8) -> (r: Color)
    ensures
        r == dimmed(color, background, background_pct),
{
    let pct: u16 = if background_pct > 100 {
        100
    } else {
        background_pct as u16
    };
    match (color, background) {
        (Color::Rgb(r1, g1, b1), Color::Rgb(r0, g0, b0)) => Color::Rgb(
            mix(r1, r0, pct),
            mix(g1, g0, pct),
            mix(b1, b0, pct),
        ),
        _ => color,
    }
}

/// A mixed channel lies between the two channels it is mixed from; at 0 percent it is the upper
/// one and at 100 percent the base.
pub proof fn mixed_lies_between(top: u8, base: u8, pct: int)
    requires
        0 <= pct <= 100,
    ensures
        top <= base ==> top <= mixed(top, base, pct) <= base,
        base <= top ==> base <= mixed(top, base, pct) <= top,
        pct == 0 ==> mixed(top, base, pct) == top,
        pct == 100 ==> mixed(top, base, pct) == base,
{
    mix_bounds(top as int, base as int, pct);
    let t: int = top as int;
    let b: int = base as int;
    assert(t * (100 - pct) + b * pct == 100 * t + (b - t) * pct) by (nonlinear_arith);
    assert(pct == 100 ==> (b - t) * pct == 100 * (b - t)) by (nonlinear_arith);
    assert(pct == 0 ==> (b - t) * pct == 0) by (nonlinear_arith);
    if t <= b {
        assert(0 <= (b - t) * pct <= 100 * (b - t)) by (nonlinear_arith)
            requires
                t <= b,
                0 <= pct <= 100,
        ;
    } else {
        assert(100 * (b - t) <= (b - t) * pct <= 0) by (nonlinear_arith)
            requires
                b <= t,
                0 <= pct <= 100,
        ;
    }
}

/// Syntax colours of the theme.
#[derive(Clone, Copy, Debug, PartialEq, Eq, Structural)]
pub struct HighlightColors {
    pub boolean: Color,
    pub emphasis: Color,
    pub heading: Color,
    pub keyword: Color,
    pub link: Color,
    pub number: Color,
    pub operator: Color,
    pub property: Color,
    pub punctuation: Color,
    pub string: Color,
}

/// The colours that the widgets draw with.
#[derive(Clone, Copy, Debug, PartialEq, Eq, Structural)]
pub struct Theme {
    pub accent: Color,
    pub accent_2: Color,
    pub background: Color,
    pub border: Color,
    pub border_focused: Color,
    pub bracket_match: Color,
    pub cursor_line_bg: Color,
    pub diff_added: Color,
    pub diff_deleted: Color,
    pub diff_modified: Color,
    pub error: Color,
    pub foreground: Color,
    pub hl: HighlightColors,
    pub selection_bg: Color,
    pub success: Color,
    pub title: Color,
    pub title_focused: Color,
    pub warning: Color,
}

} // verus!
