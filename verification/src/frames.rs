//! The frames that the panes are drawn in and the part of a list that a pane shows.

use vstd::prelude::*;

use crate::style;
use crate::style::Line;
use crate::style::Piece;
use crate::style::Style;
use crate::style::Theme;
use crate::text;

verus! {

/// The look of a pane's frame.
#[derive(Clone, Copy, Debug, PartialEq, Eq, Structural)]
pub struct PaneFrame {
    pub border: Style,
    pub thick: bool,
    pub title: Style,
}

/// The frame of a pane, which stands out where the pane has the keyboard.
#[verifier::allow_in_spec]
pub fn pane_frame(focused: bool, theme: Theme) -> PaneFrame
    returns
        (PaneFrame {
            border: Style::plain().fg(
                if focused {
                    theme.border_focused
                } else {
                    theme.border
                },
            ),
            thick: focused,
            title: Style::plain().fg(
                if focused {
                    theme.title_focused
                } else {
                    theme.title
                },
            ).bold(),
        }),
{
    PaneFrame {
        border: Style::plain().fg(
            if focused {
                theme.border_focused
            } else {
                theme.border
            },
        ),
        thick: focused,
        title: Style::plain().fg(
            if focused {
                theme.title_focused
            } else {
                theme.title
            },
        ).bold(),
    }
}

/// The farthest that `total` rows can be scrolled where `height` of them are shown.
pub open spec fn max_scroll(total: int, height: int) -> int {
    text::monus(total, height)
}

/// How far the rows are scrolled where `wanted` is asked for.
pub open spec fn scrolled(wanted: int, total: int, height: int) -> int {
    text::min_int(wanted, max_scroll(total, height))
}

pub fn clamp_scroll(wanted: usize, total: usize, height: usize) -> (r: usize)
    ensures
        r == scrolled(wanted as int, total as int, height as int),
{
    text::min_of(wanted, text::minus(total, height))
}

/// The lower sixteen bits of a number.
pub fn low_sixteen(n: usize) -> (r: u16)
    ensures
        r == n % 0x10000,
{
    assert((n as u16) as usize == n % 0x10000) by (bit_vector);
    #[verifier::truncate]
    let r: u16 = n as u16;
    r
}

/// How many rows are shown.
pub open spec fn shown(total: int, height: int) -> int {
    text::min_int(total, height)
}

/// The rows that are shown of all of them, `from` being the first.
pub open spec fn window(rows: Seq<Seq<Piece>>, from: int, height: int) -> Seq<Seq<Piece>> {
    rows.subrange(
        text::min_int(from, rows.len() as int),
        text::min_int(from + height, rows.len() as int),
    )
}

/// The rows that are shown of all of them.
pub fn visible_lines(lines: Vec<Line>, from: usize, height: usize) -> (r: Vec<Line>)
    ensures
        style::rows(r@) == window(style::rows(lines@), from as int, height as int),
{
    let ghost all: Seq<Line> = lines@;
    let mut rest: Vec<Line> = lines;
    if from >= rest.len() {
        let none: Vec<Line> = Vec::new();
        assert(style::rows(none@) =~= window(style::rows(all), from as int, height as int));
        return none;
    }
    let mut shown_rows: Vec<Line> = rest.split_off(from);
    if height < shown_rows.len() {
        shown_rows.truncate(height);
    }
    assert(style::rows(shown_rows@) =~= window(style::rows(all), from as int, height as int));
    shown_rows
}

/// What is shown after scrolling are rows that exist, and as many of them as fit.
pub proof fn scrolled_rows_exist(wanted: int, total: int, height: int)
    requires
        0 <= wanted,
        0 <= total,
        0 <= height,
    ensures
        0 <= scrolled(wanted, total, height),
        scrolled(wanted, total, height) + shown(total, height) <= total,
        scrolled(wanted, total, height) + height >= total ==> scrolled(wanted, total, height)
            + shown(total, height) == total,
{
}

} // verus!
