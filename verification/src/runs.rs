//! Characters gathered into pieces of one style.

use vstd::prelude::*;

use crate::style;
use crate::style::Piece;
use crate::style::Span;
use crate::style::Style;

verus! {

/// The pieces that are complete, and the characters of the open one with their style.
pub struct Gathered {
    pub done: Seq<Piece>,
    pub open: Seq<char>,
    pub look: Style,
}

/// All pieces, the open one with them.
pub open spec fn all_pieces(g: Gathered) -> Seq<Piece> {
    if g.open.len() > 0 {
        g.done.push(style::piece(g.open, g.look))
    } else {
        g.done
    }
}

/// One more character.
pub open spec fn with(g: Gathered, c: char, look: Style) -> Gathered {
    if look != g.look {
        Gathered { done: all_pieces(g), open: seq![c], look }
    } else {
        Gathered { open: g.open.push(c), ..g }
    }
}

/// Some spaces more.
pub open spec fn with_spaces(g: Gathered, look: Style, n: int) -> Gathered
    decreases n,
{
    if n <= 0 {
        g
    } else {
        with(with_spaces(g, look, n - 1), ' ', look)
    }
}

/// Nothing yet.
pub open spec fn nothing(look: Style) -> Gathered {
    Gathered { done: Seq::empty(), open: Seq::empty(), look }
}

/// The characters that were gathered.
pub open spec fn gathered_text(g: Gathered) -> Seq<char> {
    style::plain_text(all_pieces(g))
}

/// Every character comes behind the ones before it, whatever its style.
pub proof fn gathering_keeps_text(g: Gathered, c: char, look: Style)
    ensures
        gathered_text(with(g, c, look)) == gathered_text(g).push(c),
{
    let h: Gathered = with(g, c, look);
    if look != g.look {
        style::plain_text_push(all_pieces(g), style::piece(seq![c], look));
        assert(gathered_text(h) =~= gathered_text(g).push(c));
    } else {
        style::plain_text_push(g.done, style::piece(g.open, g.look));
        style::plain_text_push(g.done, style::piece(g.open.push(c), g.look));
        assert(gathered_text(h) =~= gathered_text(g).push(c));
    }
}

/// Nothing has no characters.
pub proof fn nothing_is_empty(look: Style)
    ensures
        gathered_text(nothing(look)) == Seq::<char>::empty(),
{
}

/// Characters on their way into pieces.
pub struct Runs {
    pub done: Vec<Span>,
    pub open: String,
    pub look: Style,
}

impl View for Runs {
    type V = Gathered;

    open spec fn view(&self) -> Gathered {
        Gathered { done: style::pieces(self.done@), open: self.open@, look: self.look }
    }
}

impl Runs {
    pub fn new(look: Style) -> (r: Runs)
        ensures
            r@ == nothing(look),
    {
        broadcast use style::group_lines;

        let r: Runs = Runs { done: Vec::new(), open: String::new(), look };
        assert(r.open@ =~= Seq::<char>::empty());
        assert(style::pieces(r.done@) =~= Seq::<Piece>::empty());
        r
    }

    pub fn finish(self) -> (r: Vec<Span>)
        ensures
            style::pieces(r@) == all_pieces(self@),
    {
        broadcast use style::group_lines;

        let mut r: Vec<Span> = self.done;
        if crate::text::length(self.open.as_str()) > 0 {
            r.push(style::styled(self.open, self.look));
        }
        r
    }

    pub fn put(self, c: char, look: Style) -> (r: Runs)
        ensures
            r@ == with(self@, c, look),
    {
        if look != self.look {
            let done: Vec<Span> = self.finish();
            let mut open: String = String::new();
            open.push(c);
            assert(open@ =~= seq![c]);
            Runs { done, open, look }
        } else {
            let mut open: String = self.open;
            open.push(c);
            Runs { done: self.done, open, look }
        }
    }

    pub fn put_spaces(self, look: Style, n: usize) -> (r: Runs)
        ensures
            r@ == with_spaces(self@, look, n as int),
    {
        let ghost first: Gathered = self@;
        let mut out: Runs = self;
        let mut i: usize = 0;
        while i < n
            invariant
                i <= n,
                out@ == with_spaces(first, look, i as int),
            decreases n - i,
        {
            out = out.put(' ', look);
            i += 1;
        }
        out
    }
}

} // verus!
