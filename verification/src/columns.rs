//! Display columns of characters and texts.

use vstd::prelude::*;

verus! {

/// The columns that a character other than a printable ASCII one takes on a terminal.
pub uninterp spec fn other_columns(c: char) -> Option<usize>;

/// The columns that a character takes on a terminal; `None` for a control character.
pub open spec fn char_columns(c: char) -> Option<usize> {
    if ' ' <= c <= '~' {
        Some(1)
    } else {
        other_columns(c)
    }
}

/// Calls `unicode_width::UnicodeWidthChar::width`. Claims that the printable ASCII characters take
/// one column, that for any other character the answer depends on it alone, and that it is at most
/// three columns.
#[verifier::external_body]
pub(crate) fn char_width(c: char) -> (r: Option<usize>)
    ensures
        ' ' <= c <= '~' ==> r == Some(1usize),
        !(' ' <= c <= '~') ==> r == other_columns(c),
        r matches Some(w) ==> w <= 3,
{
    unicode_width::UnicodeWidthChar::width(c)
}

/// The columns that a text takes on a terminal.
pub uninterp spec fn text_columns(s: Seq<char>) -> usize;

/// Calls `unicode_width::UnicodeWidthStr::width`. Claims that the answer depends on the
/// characters of the text alone.
#[verifier::external_body]
pub(crate) fn text_width(s: &str) -> (r: usize)
    ensures
        r == text_columns(s@),
{
    unicode_width::UnicodeWidthStr::width(s)
}

/// The cells that a character is given: its columns, and one where it would take none.
pub open spec fn cells(c: char) -> int {
    match char_columns(c) {
        Some(w) => if w >= 1 {
            w as int
        } else {
            1
        },
        None => 1,
    }
}

pub fn cell_width(c: char) -> (r: usize)
    ensures
        r == cells(c),
        1 <= r <= 3,
        ' ' <= c <= '~' ==> r == 1,
{
    match char_width(c) {
        Some(w) => if w >= 1 {
            w
        } else {
            1
        },
        None => 1,
    }
}

/// The cells from column `col` to the next tab stop, four cells apart, within a line of `width`.
pub open spec fn tab_cells(col: int, width: int) -> int {
    let w: int = if width >= 1 {
        width
    } else {
        1
    };
    let stop: int = 4 - col % 4;
    if stop <= w {
        stop
    } else {
        w
    }
}

pub fn next_tab_width(col: usize, width: usize) -> (r: usize)
    ensures
        r == tab_cells(col as int, width as int),
        1 <= r <= 4,
        width >= 1 ==> r <= width,
{
    let w: usize = if width >= 1 {
        width
    } else {
        1
    };
    let stop: usize = 4 - col % 4;
    if stop <= w {
        stop
    } else {
        w
    }
}

/// Whether `add` more cells at column `col` leave a line of `width`.
pub open spec fn leaves(col: int, add: int, width: int) -> bool {
    col + add > width
}

pub fn overflows(col: usize, add: usize, width: usize) -> (r: bool)
    ensures
        r == leaves(col as int, add as int, width as int),
{
    col > width || add > width - col
}

} // verus!
