//! Markers in front of rows, with ASCII ones for fonts that lack the others.

use vstd::prelude::*;

verus! {

#[verifier::allow_in_spec]
pub fn arrow_glyph(ascii: bool) -> char
    returns
        (if ascii {
            '>'
        } else {
            '↳'
        }),
{
    if ascii {
        '>'
    } else {
        '↳'
    }
}

#[verifier::allow_in_spec]
pub fn cursor_glyph(ascii: bool) -> char
    returns
        (if ascii {
            '>'
        } else {
            '➜'
        }),
{
    if ascii {
        '>'
    } else {
        '➜'
    }
}

#[verifier::allow_in_spec]
pub fn tree_closed_glyph(ascii: bool) -> char
    returns
        (if ascii {
            '>'
        } else {
            '▸'
        }),
{
    if ascii {
        '>'
    } else {
        '▸'
    }
}

#[verifier::allow_in_spec]
pub fn tree_open_glyph(ascii: bool) -> char
    returns
        (if ascii {
            'v'
        } else {
            '▾'
        }),
{
    if ascii {
        'v'
    } else {
        '▾'
    }
}

/// A text of one character.
pub fn one(c: char) -> (r: String)
    ensures
        r@ == seq![c],
{
    let mut out: String = String::new();
    out.push(c);
    assert(out@ =~= seq![c]);
    out
}

} // verus!
