//! The list of what agents take for granted.

use vstd::prelude::*;

use crate::claims_view;
use crate::fit;
use crate::overlays;
use crate::overlays::OverlayBody;
use crate::style;
use crate::style::Line;
use crate::style::Piece;
use crate::style::Style;
use crate::style::Theme;
use crate::text;

verus! {

/// What an assumption is about.
pub enum AssumptionTarget {
    Global,
    File { path: String },
    Region { path: String, start_line: usize, end_line: usize },
}

pub struct Assumption {
    pub id: String,
    pub posted_by: String,
    pub target: AssumptionTarget,
    pub rationale: String,
    pub posted_at_gen: u64,
}

/// An assumption that holds for some generations more.
pub struct ActiveAssumption {
    pub assumption: Assumption,
    pub remaining: u64,
}

pub open spec fn target_text(t: AssumptionTarget) -> Seq<char> {
    match t {
        AssumptionTarget::Global => "Global"@,
        AssumptionTarget::File { path } => "file:"@ + fit::truncated(path@, 22),
        AssumptionTarget::Region { path, start_line, end_line } => "region:"@ + fit::truncated(
            path@,
            16,
        ) + "#"@ + text::decimal(start_line as nat) + "-"@ + text::decimal(end_line as nat),
    }
}

pub fn format_target(t: &AssumptionTarget) -> (r: String)
    ensures
        r@ == target_text(*t),
{
    match t {
        AssumptionTarget::Global => text::copy("Global"),
        AssumptionTarget::File { path } => {
            let cut: String = fit::truncate_label(path.as_str(), 22);
            text::cat2("file:", cut.as_str())
        },
        AssumptionTarget::Region { path, start_line, end_line } => {
            let cut: String = fit::truncate_label(path.as_str(), 16);
            let from: String = text::decimal_usize(*start_line);
            let to: String = text::decimal_usize(*end_line);
            text::cat6("region:", cut.as_str(), "#", from.as_str(), "-", to.as_str())
        },
    }
}

/// A row of the list: the name, the reason and the age are dropped one after another as the room
/// gets less.
pub open spec fn row(
    ttl: Seq<char>,
    by: Seq<char>,
    target: Seq<char>,
    age: Seq<char>,
    rationale: Seq<char>,
    id: Seq<char>,
    width: u16,
) -> Seq<char> {
    let first: Seq<char> = fit::right_at_least(ttl, 4) + "  "@ + fit::at_least(by, 16) + " "@
        + fit::at_least(fit::truncated(target, 28), 28);
    let aged: Seq<char> = if width >= 50 {
        first + " "@ + fit::right_at_least(age, 5)
    } else {
        first
    };
    let reasoned: Seq<char> = if width >= 70 {
        aged + "  "@ + fit::at_least(fit::truncated(rationale, 30), 30)
    } else {
        aged
    };
    if width >= 90 {
        reasoned + "  "@ + id
    } else {
        reasoned
    }
}

pub fn format_row(
    ttl: &str,
    by: &str,
    target: &str,
    age: &str,
    rationale: &str,
    id: &str,
    width: u16,
) -> (r: String)
    ensures
        r@ == row(ttl@, by@, target@, age@, rationale@, id@, width),
{
    let cut: String = fit::truncate_label(target, 28);
    let a: String = fit::pad_start(ttl, 4);
    let b: String = fit::pad_end(by, 16);
    let c: String = fit::pad_end(cut.as_str(), 28);
    let mut out: String = text::cat5(a.as_str(), "  ", b.as_str(), " ", c.as_str());
    if width >= 50 {
        let d: String = fit::pad_start(age, 5);
        out = text::cat3(out.as_str(), " ", d.as_str());
    }
    if width >= 70 {
        let why: String = fit::truncate_label(rationale, 30);
        let e: String = fit::pad_end(why.as_str(), 30);
        out = text::cat3(out.as_str(), "  ", e.as_str());
    }
    if width >= 90 {
        out = text::cat3(out.as_str(), "  ", id);
    }
    out
}

/// The style of an assumption: the less it has left, the weaker.
pub open spec fn assumption_style(remaining: u64, theme: Theme) -> Style {
    let base: Style = Style::plain().fg(theme.accent);
    if remaining >= 2 {
        base.bold()
    } else if remaining == 0 {
        base.dim()
    } else {
        base
    }
}

pub fn style_for(remaining: u64, theme: &Theme) -> (r: Style)
    ensures
        r == assumption_style(remaining, *theme),
{
    let base: Style = Style::plain().fg(theme.accent);
    if remaining >= 2 {
        base.bold()
    } else if remaining == 0 {
        base.dim()
    } else {
        base
    }
}

/// An assumption in its row.
pub open spec fn assumption_row(a: ActiveAssumption, generation: u64, width: u16, theme: Theme) -> Seq<
    Piece,
> {
    seq![
        style::piece(
            row(
                text::decimal(a.remaining as nat) + "g"@,
                fit::truncated(a.assumption.posted_by@, 16),
                target_text(a.assumption.target),
                text::decimal(claims_view::age(generation, a.assumption.posted_at_gen)) + "g"@,
                fit::truncated(a.assumption.rationale@, 30),
                fit::truncated(a.assumption.id@, 24),
                width,
            ),
            assumption_style(a.remaining, theme),
        ),
    ]
}

pub fn row_line(a: &ActiveAssumption, generation: u64, width: u16, theme: &Theme) -> (r: Line)
    ensures
        r@ == assumption_row(*a, generation, width, *theme),
{
    let left: String = text::decimal_u64(a.remaining);
    let ttl: String = text::cat2(left.as_str(), "g");
    let since: String = text::decimal_u64(generation.saturating_sub(a.assumption.posted_at_gen));
    let old_for: String = text::cat2(since.as_str(), "g");
    let by: String = fit::truncate_label(a.assumption.posted_by.as_str(), 16);
    let target: String = format_target(&a.assumption.target);
    let why: String = fit::truncate_label(a.assumption.rationale.as_str(), 30);
    let id: String = fit::truncate_label(a.assumption.id.as_str(), 24);
    let line: String = format_row(
        ttl.as_str(),
        by.as_str(),
        target.as_str(),
        old_for.as_str(),
        why.as_str(),
        id.as_str(),
        width,
    );
    style::single(line, style_for(a.remaining, theme))
}

/// The list of assumptions.
pub open spec fn assumption_rows(
    all: Seq<ActiveAssumption>,
    generation: u64,
    theme: Theme,
    width: u16,
) -> Seq<Seq<Piece>> {
    seq![
        seq![
            style::piece(
                text::decimal(all.len()) + " active   gen "@ + text::decimal(generation as nat),
                Style::plain().fg(theme.title).bold(),
            ),
        ],
        Seq::<Piece>::empty(),
        seq![
            style::piece(
                row("TTL"@, "BY"@, "TARGET"@, "AGE"@, "RATIONALE"@, "ID"@, width),
                Style::plain().fg(theme.title).dim(),
            ),
        ],
    ] + (if all.len() == 0 {
        seq![
            Seq::<Piece>::empty(),
            seq![
                style::piece(
                    "  No active assumptions. Agents haven't posted any yet."@,
                    Style::plain().fg(theme.border).dim(),
                ),
            ],
        ]
    } else {
        Seq::new(all.len(), |i: int| assumption_row(all[i], generation, width, theme))
    })
}

/// The lines of the list. The assumptions come in the order in which they are listed.
pub fn build_lines(all: &Vec<ActiveAssumption>, generation: u64, theme: &Theme, width: u16) -> (r:
    Vec<Line>)
    ensures
        style::rows(r@) == assumption_rows(all@, generation, *theme, width),
{
    let ghost want: Seq<Seq<Piece>> = assumption_rows(all@, generation, *theme, width);
    let active: String = text::decimal_usize(all.len());
    let gen_text: String = text::decimal_u64(generation);
    let mut out: Vec<Line> = Vec::new();
    out.push(
        style::single(
            text::cat3(active.as_str(), " active   gen ", gen_text.as_str()),
            Style::plain().fg(theme.title).bold(),
        ),
    );
    out.push(style::blank());
    out.push(
        style::single(
            format_row("TTL", "BY", "TARGET", "AGE", "RATIONALE", "ID", width),
            Style::plain().fg(theme.title).dim(),
        ),
    );
    if all.len() == 0 {
        out.push(style::blank());
        out.push(
            style::single(
                text::copy("  No active assumptions. Agents haven't posted any yet."),
                Style::plain().fg(theme.border).dim(),
            ),
        );
        assert(style::rows(out@) =~= want);
        return out;
    }
    let mut i: usize = 0;
    assert(style::rows(out@) =~= want.take(3));
    while i < all.len()
        invariant
            i <= all@.len(),
            all@.len() > 0,
            want == assumption_rows(all@, generation, *theme, width),
            style::rows(out@) == want.take(3 + i),
        decreases all@.len() - i,
    {
        style::push_line(&mut out, row_line(&all[i], generation, width, theme));
        i += 1;
        assert(want.take(3 + i) =~= want.take(3 + i - 1) + seq![want[3 + i - 1]]);
    }
    assert(want.take(3 + i) =~= want);
    out
}

/// The inside of the list.
pub fn render_body(
    all: &Vec<ActiveAssumption>,
    generation: u64,
    scroll: usize,
    theme: &Theme,
    width: u16,
    height: u16,
) -> (r: OverlayBody)
    ensures
        overlays::shows(
            r,
            assumption_rows(all@, generation, *theme, width),
            scroll as int,
            height as int,
            *theme,
        ),
{
    let lines: Vec<Line> = build_lines(all, generation, theme, width);
    overlays::overlay_body(lines, scroll, height, theme)
}

} // verus!
