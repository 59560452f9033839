//! Rectangles on the screen and how they are divided.

use vstd::prelude::*;

verus! {

/// An area of the screen in cells.
#[derive(Clone, Copy, Debug, PartialEq, Eq, Structural)]
pub struct Rect {
    pub x: u16,
    pub y: u16,
    pub width: u16,
    pub height: u16,
}

/// `a + b`, but never above the largest coordinate.
pub open spec fn plus(a: u16, b: u16) -> u16 {
    if a + b > u16::MAX {
        u16::MAX
    } else {
        (a + b) as u16
    }
}

/// `a - b`, but never below zero.
pub open spec fn less(a: u16, b: u16) -> u16 {
    if a >= b {
        (a - b) as u16
    } else {
        0
    }
}

/// A size kept between two bounds.
pub open spec fn between(n: u16, low: u16, high: u16) -> u16 {
    if n < low {
        low
    } else if n > high {
        high
    } else {
        n
    }
}

pub fn keep_between(n: u16, low: u16, high: u16) -> (r: u16)
    ensures
        r == between(n, low, high),
{
    if n < low {
        low
    } else if n > high {
        high
    } else {
        n
    }
}

/// So many hundredths of a size; the product stops at the largest coordinate.
pub open spec fn share(n: u16, pct: u16) -> u16 {
    ((if n * pct > u16::MAX {
        u16::MAX as int
    } else {
        n * pct
    }) / 100) as u16
}

pub fn share_of(n: u16, pct: u16) -> (r: u16)
    ensures
        r == share(n, pct),
{
    assert(n * pct <= 0xffff * 0xffff) by (nonlinear_arith)
        requires
            n <= 0xffff,
            pct <= 0xffff,
    ;
    let product: u32 = (n as u32) * (pct as u32);
    if product > 0xffff {
        655
    } else {
        (product / 100) as u16
    }
}

/// The smaller of two sizes.
pub open spec fn smaller(a: u16, b: u16) -> u16 {
    if a <= b {
        a
    } else {
        b
    }
}

pub fn smaller_of(a: u16, b: u16) -> (r: u16)
    ensures
        r == smaller(a, b),
{
    if a <= b {
        a
    } else {
        b
    }
}

/// What is left of `area` inside a border of one cell on every side.
pub open spec fn inside(area: Rect) -> Rect {
    Rect {
        x: (if plus(area.x, 1) <= plus(area.x, area.width) {
            plus(area.x, 1)
        } else {
            plus(area.x, area.width)
        }),
        y: (if plus(area.y, 1) <= plus(area.y, area.height) {
            plus(area.y, 1)
        } else {
            plus(area.y, area.height)
        }),
        width: less(area.width, 2),
        height: less(area.height, 2),
    }
}

fn step_in(start: u16, size: u16) -> (r: u16)
    ensures
        r == (if plus(start, 1) <= plus(start, size) {
            plus(start, 1)
        } else {
            plus(start, size)
        }),
{
    let one: u16 = start.saturating_add(1);
    let end: u16 = start.saturating_add(size);
    if one <= end {
        one
    } else {
        end
    }
}

pub fn inner(area: Rect) -> (r: Rect)
    ensures
        r == inside(area),
{
    Rect {
        x: step_in(area.x, area.width),
        y: step_in(area.y, area.height),
        width: area.width.saturating_sub(2),
        height: area.height.saturating_sub(2),
    }
}

/// Whether the cell lies in the rectangle.
pub open spec fn within(x: u16, y: u16, rect: Rect) -> bool {
    rect.x <= x < plus(rect.x, rect.width) && rect.y <= y < plus(rect.y, rect.height)
}

pub fn point_in_rect(x: u16, y: u16, rect: Rect) -> (r: bool)
    ensures
        r == within(x, y, rect),
{
    x >= rect.x && x < rect.x.saturating_add(rect.width) && y >= rect.y && y
        < rect.y.saturating_add(rect.height)
}

/// A border takes one cell from every side, so what is inside lies within.
pub proof fn inside_lies_within(area: Rect, x: u16, y: u16)
    requires
        within(x, y, inside(area)),
    ensures
        within(x, y, area),
{
}

/// How tall one of the rows that an area is divided into should be.
#[derive(Clone, Copy, Debug, PartialEq, Eq, Structural)]
pub enum Height {
    /// Exactly so many cells.
    Exactly(u16),
    /// So many cells or more.
    AtLeast(u16),
}

/// Whether `parts` are `count` rows of `area`: each as wide as the area, at its left edge, and
/// within it.
pub open spec fn rows_of(area: Rect, count: nat, parts: Seq<Rect>) -> bool {
    &&& parts.len() == count
    &&& forall|i: int|
        0 <= i < parts.len() ==> (#[trigger] parts[i]).x == area.x && parts[i].width == area.width
            && area.y <= parts[i].y && parts[i].y + parts[i].height <= plus(area.y, area.height)
}

/// What a row asks for at the least.
pub open spec fn least(h: Height) -> int {
    match h {
        Height::Exactly(n) => n as int,
        Height::AtLeast(n) => n as int,
    }
}

/// What the first `n` rows ask for at the least.
pub open spec fn least_upto(heights: Seq<Height>, n: int) -> int
    decreases n,
{
    if n <= 0 {
        0
    } else {
        least_upto(heights, n - 1) + least(heights[n - 1])
    }
}

/// What those of the first `n` rows take that are so tall exactly.
pub open spec fn fixed_upto(heights: Seq<Height>, n: int) -> int
    decreases n,
{
    if n <= 0 {
        0
    } else {
        fixed_upto(heights, n - 1) + (match heights[n - 1] {
            Height::Exactly(k) => k as int,
            Height::AtLeast(_) => 0,
        })
    }
}

/// How many of the first `n` rows can grow.
pub open spec fn growing_upto(heights: Seq<Height>, n: int) -> int
    decreases n,
{
    if n <= 0 {
        0
    } else {
        growing_upto(heights, n - 1) + (match heights[n - 1] {
            Height::Exactly(_) => 0int,
            Height::AtLeast(_) => 1,
        })
    }
}

/// Whether one of the rows can grow, from no more than 32767 cells, and all of them fit in an area
/// that lies within the screen.
pub open spec fn fits(area: Rect, heights: Seq<Height>) -> bool {
    let n: int = heights.len() as int;
    &&& growing_upto(heights, n) == 1
    &&& least_upto(heights, n) <= area.height
    &&& forall|i: int|
        0 <= i < n ==> ((#[trigger] heights[i]) matches Height::AtLeast(k) ==> k <= 0x7fff)
    &&& area.y + area.height <= u16::MAX
}

/// How tall a row gets: the one that can grow takes what the others leave.
pub open spec fn row_height(area: Rect, heights: Seq<Height>, i: int) -> int {
    match heights[i] {
        Height::Exactly(k) => k as int,
        Height::AtLeast(_) => area.height - fixed_upto(heights, heights.len() as int),
    }
}

/// Where row `i` starts.
pub open spec fn row_start(area: Rect, heights: Seq<Height>, i: int) -> int
    decreases i,
{
    if i <= 0 {
        area.y as int
    } else {
        row_start(area, heights, i - 1) + row_height(area, heights, i - 1)
    }
}

/// The rows of an area that they fit in, one below another.
pub open spec fn stacked(area: Rect, heights: Seq<Height>) -> Seq<Rect> {
    Seq::new(
        heights.len(),
        |i: int|
            Rect {
                x: area.x,
                y: row_start(area, heights, i) as u16,
                width: area.width,
                height: row_height(area, heights, i) as u16,
            },
    )
}

/// Whether `parts` are the rows of `area` that were asked for: as tall as they should be where they
/// fit, and in any case within it.
pub open spec fn divides(area: Rect, heights: Seq<Height>, parts: Seq<Rect>) -> bool {
    &&& rows_of(area, heights.len(), parts)
    &&& fits(area, heights) ==> parts == stacked(area, heights)
}

/// A row that grows between one of one cell and one of `tall` cells: where each of them stands.
pub proof fn rows_between(area: Rect, tall: u16)
    requires
        2 + tall <= area.height,
        area.y + area.height <= u16::MAX,
    ensures
        ({
            let heights: Seq<Height> = seq![
                Height::Exactly(1),
                Height::AtLeast(1),
                Height::Exactly(tall),
            ];
            &&& fits(area, heights)
            &&& stacked(area, heights).len() == 3
            &&& stacked(area, heights)[0] == (Rect { height: 1, ..area })
            &&& stacked(area, heights)[1] == (Rect {
                y: (area.y + 1) as u16,
                height: (area.height - 1 - tall) as u16,
                ..area
            })
            &&& stacked(area, heights)[2] == (Rect {
                y: (area.y + area.height - tall) as u16,
                height: tall,
                ..area
            })
        }),
{
    reveal_with_fuel(growing_upto, 4);
    reveal_with_fuel(least_upto, 4);
    reveal_with_fuel(fixed_upto, 4);
    reveal_with_fuel(row_start, 4);
}

/// A row that grows above one of `tall` cells: where each of them stands.
pub proof fn rows_above(area: Rect, tall: u16)
    requires
        1 + tall <= area.height,
        area.y + area.height <= u16::MAX,
    ensures
        ({
            let heights: Seq<Height> = seq![Height::AtLeast(1), Height::Exactly(tall)];
            &&& fits(area, heights)
            &&& stacked(area, heights).len() == 2
            &&& stacked(area, heights)[0] == (Rect {
                height: (area.height - tall) as u16,
                ..area
            })
            &&& stacked(area, heights)[1] == (Rect {
                y: (area.y + area.height - tall) as u16,
                height: tall,
                ..area
            })
        }),
{
    reveal_with_fuel(growing_upto, 3);
    reveal_with_fuel(least_upto, 3);
    reveal_with_fuel(fixed_upto, 3);
    reveal_with_fuel(row_start, 3);
}

/// Calls `ratatui::layout::Layout::split` with a vertical layout, `Height::Exactly` as
/// `Constraint::Length` and `Height::AtLeast` as `Constraint::Min`. Claims that one rectangle
/// comes back for each height, that each has the left edge and the width of `area`, and that none
/// reaches above or below it. Where all heights fit and one of them can grow, claims that the rows
/// follow one another from the top, each as tall as asked for, and that the one that can grow takes
/// the rest; its least height must fit in an `i16`, which `Constraint::Min` turns it into. Which rows get less where they do not fit is left to the constraint solver.
#[verifier::external_body]
pub(crate) fn split_rows(area: Rect, heights: &Vec<Height>) -> (r: Vec<Rect>)
    ensures
        divides(area, heights@, r@),
{
    let constraints: Vec<ratatui::layout::Constraint> = heights.iter().map(|h| match h {
        Height::Exactly(n) => ratatui::layout::Constraint::Length(*n),
        Height::AtLeast(n) => ratatui::layout::Constraint::Min(*n),
    }).collect();
    let area = ratatui::layout::Rect { x: area.x, y: area.y, width: area.width, height: area.height };
    ratatui::layout::Layout::vertical(constraints).split(area).iter().map(|r| Rect {
        x: r.x, y: r.y, width: r.width, height: r.height }).collect()
}

/// The left half of an area, which is wider by one where the width is odd, and the right half.
pub open spec fn halves(area: Rect) -> Seq<Rect> {
    let left: int = (area.width + 1) / 2;
    seq![
        Rect { width: left as u16, ..area },
        Rect { x: (area.x + left) as u16, width: (area.width - left) as u16, ..area },
    ]
}

/// Whether `parts` are two columns of `area`: each as tall as the area, at its top, and within it;
/// and its halves, where it lies within the screen.
pub open spec fn halves_of(area: Rect, parts: Seq<Rect>) -> bool {
    &&& parts.len() == 2
    &&& forall|i: int|
        0 <= i < parts.len() ==> (#[trigger] parts[i]).y == area.y && parts[i].height
            == area.height && area.x <= parts[i].x && parts[i].x + parts[i].width <= plus(
            area.x,
            area.width,
        )
    &&& area.x + area.width <= u16::MAX ==> parts == halves(area)
}

/// Calls `ratatui::layout::Layout::split` with a horizontal layout of two
/// `Constraint::Percentage(50)`. Claims that two rectangles come back, that each has the top and
/// the height of `area`, and that none reaches beyond its sides; and that they are its halves,
/// the cell in the middle of an odd width being in the left one, where the area lies within the
/// screen.
#[verifier::external_body]
pub(crate) fn split_halves(area: Rect) -> (r: Vec<Rect>)
    ensures
        halves_of(area, r@),
{
    let halves = [ratatui::layout::Constraint::Percentage(50); 2];
    let area = ratatui::layout::Rect { x: area.x, y: area.y, width: area.width, height: area.height };
    ratatui::layout::Layout::horizontal(halves).split(area).iter().map(|r| Rect {
        x: r.x, y: r.y, width: r.width, height: r.height }).collect()
}

} // verus!
