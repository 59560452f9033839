//! Lists that are shown over the panes.

use vstd::prelude::*;

use crate::frames;
use crate::style;
use crate::style::Line;
use crate::style::Piece;
use crate::style::Style;
use crate::style::Theme;
use crate::text;

verus! {

/// The inside of a list over the panes: all of its lines, and the scroll position, which is kept
/// for the next frame with the farthest one.
pub struct OverlayBody {
    pub lines: Vec<Line>,
    pub look: Style,
    pub scroll: u16,
    pub max_scroll: usize,
}

/// Whether a list is shown, scrolled as it is asked for and as far as there are lines.
pub open spec fn shows(
    r: OverlayBody,
    all: Seq<Seq<Piece>>,
    wanted: int,
    height: int,
    theme: Theme,
) -> bool {
    &&& style::rows(r.lines@) == all
    &&& r.look == Style::plain().bg(theme.background).fg(theme.foreground)
    &&& r.max_scroll == frames::max_scroll(all.len() as int, height)
    &&& r.scroll == frames::scrolled(wanted, all.len() as int, height) % 0x10000
}

pub fn overlay_body(lines: Vec<Line>, wanted: usize, height: u16, theme: &Theme) -> (r: OverlayBody)
    ensures
        shows(r, style::rows(lines@), wanted as int, height as int, *theme),
{
    assert(style::rows(lines@).len() == lines@.len());
    let total: usize = lines.len();
    let scroll: usize = frames::clamp_scroll(wanted, total, height as usize);
    OverlayBody {
        lines,
        look: Style::plain().bg(theme.background).fg(theme.foreground),
        scroll: frames::low_sixteen(scroll),
        max_scroll: text::minus(total, height as usize),
    }
}

} // verus!
