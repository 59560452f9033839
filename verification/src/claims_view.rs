//! The list of what agents have laid claim to.

use vstd::prelude::*;

use crate::fit;
use crate::overlays;
use crate::overlays::OverlayBody;
use crate::paths;
use crate::style;
use crate::style::Color;
use crate::style::Line;
use crate::style::Piece;
use crate::style::Style;
use crate::style::Theme;
use crate::text;

verus! {

#[derive(Clone, Copy, Debug, PartialEq, Eq, Structural)]
pub enum ClaimKind {
    ExclusiveWrite,
    SharedRead,
    AppendOnly,
    Soft,
}

/// What a claim is on.
pub enum ClaimTarget {
    Global,
    File { path: String },
    Region { path: String, start_line: usize, end_line: usize },
}

pub struct Claim {
    pub id: String,
    pub kind: ClaimKind,
    pub claimed_by: String,
    pub target: ClaimTarget,
    pub claimed_at_gen: u64,
}

/// A claim that holds for some generations more.
pub struct ActiveClaim {
    pub claim: Claim,
    pub remaining: u64,
}

pub open spec fn label(kind: ClaimKind) -> Seq<char> {
    match kind {
        ClaimKind::ExclusiveWrite => "ExclusiveWrite"@,
        ClaimKind::SharedRead => "SharedRead"@,
        ClaimKind::AppendOnly => "AppendOnly"@,
        ClaimKind::Soft => "Soft"@,
    }
}

pub fn kind_label(kind: ClaimKind) -> (r: &'static str)
    ensures
        r@ == label(kind),
{
    match kind {
        ClaimKind::ExclusiveWrite => "ExclusiveWrite",
        ClaimKind::SharedRead => "SharedRead",
        ClaimKind::AppendOnly => "AppendOnly",
        ClaimKind::Soft => "Soft",
    }
}

/// A path from its `crates/` on, or else its last name.
pub open spec fn short_path(p: Seq<char>) -> Seq<char> {
    match text::find(p, "crates/"@) {
        Some(k) => text::tail(p, k),
        None => paths::name_or_path(p),
    }
}

pub fn compact_path(p: &str) -> (r: String)
    ensures
        r@ == short_path(p@),
{
    match text::find_text(p, "crates/") {
        Some(k) => text::tail_of(p, k),
        None => paths::file_name_or_path(p),
    }
}

/// The name of a copy of an agent without the mission that it works for.
pub open spec fn short_id(id: Seq<char>) -> Seq<char> {
    match text::around(id, "#swarm-"@) {
        None => id,
        Some(p) => match text::around(p.1, "-"@) {
            None => id,
            Some(q) => match text::around(q.1, "-"@) {
                None => id,
                Some(r) => if r.1.len() == 0 {
                    id
                } else {
                    p.0 + "#"@ + r.1
                },
            },
        },
    }
}

pub fn compact_agent_id(id: &str) -> (r: String)
    ensures
        r@ == short_id(id@),
{
    if let Some(p) = text::split_once(id, "#swarm-") {
        if let Some(q) = text::split_once(p.1.as_str(), "-") {
            if let Some(s) = text::split_once(q.1.as_str(), "-") {
                if text::length(s.1.as_str()) > 0 {
                    return text::cat3(p.0.as_str(), "#", s.1.as_str());
                }
            }
        }
    }
    text::copy(id)
}

pub open spec fn target_text(t: ClaimTarget) -> Seq<char> {
    match t {
        ClaimTarget::Global => "Global"@,
        ClaimTarget::File { path } => "file:"@ + fit::truncated(short_path(path@), 42),
        ClaimTarget::Region { path, start_line, end_line } => "region:"@ + fit::truncated(
            short_path(path@),
            34,
        ) + "#"@ + text::decimal(start_line as nat) + "-"@ + text::decimal(end_line as nat),
    }
}

pub fn format_target(t: &ClaimTarget) -> (r: String)
    ensures
        r@ == target_text(*t),
{
    match t {
        ClaimTarget::Global => text::copy("Global"),
        ClaimTarget::File { path } => {
            let short: String = compact_path(path.as_str());
            let cut: String = fit::truncate_label(short.as_str(), 42);
            text::cat2("file:", cut.as_str())
        },
        ClaimTarget::Region { path, start_line, end_line } => {
            let short: String = compact_path(path.as_str());
            let cut: String = fit::truncate_label(short.as_str(), 34);
            let from: String = text::decimal_usize(*start_line);
            let to: String = text::decimal_usize(*end_line);
            text::cat6("region:", cut.as_str(), "#", from.as_str(), "-", to.as_str())
        },
    }
}

/// A row of the list: the age is dropped where there is little room, and the name with it or
/// before it.
pub open spec fn row(
    ttl: Seq<char>,
    kind: Seq<char>,
    by: Seq<char>,
    target: Seq<char>,
    age: Seq<char>,
    id: Seq<char>,
    width: u16,
) -> Seq<char> {
    let first: Seq<char> = fit::right_at_least(ttl, 4) + "  "@ + fit::at_least(
        fit::truncated(kind, 14),
        14,
    ) + " "@ + fit::at_least(by, 26) + " "@ + fit::at_least(fit::truncated(target, 48), 48);
    let aged: Seq<char> = if width >= 70 {
        first + " "@ + fit::right_at_least(age, 5)
    } else {
        first
    };
    if width >= 90 {
        aged + "  "@ + id
    } else {
        aged
    }
}

pub fn format_row(
    ttl: &str,
    kind: &str,
    by: &str,
    target: &str,
    age: &str,
    id: &str,
    width: u16,
) -> (r: String)
    ensures
        r@ == row(ttl@, kind@, by@, target@, age@, id@, width),
{
    let cut_kind: String = fit::truncate_label(kind, 14);
    let cut_target: String = fit::truncate_label(target, 48);
    let a: String = fit::pad_start(ttl, 4);
    let b: String = fit::pad_end(cut_kind.as_str(), 14);
    let c: String = fit::pad_end(by, 26);
    let d: String = fit::pad_end(cut_target.as_str(), 48);
    let mut out: String = text::cat7(
        a.as_str(),
        "  ",
        b.as_str(),
        " ",
        c.as_str(),
        " ",
        d.as_str(),
    );
    if width >= 70 {
        let e: String = fit::pad_start(age, 5);
        out = text::cat3(out.as_str(), " ", e.as_str());
    }
    if width >= 90 {
        out = text::cat3(out.as_str(), "  ", id);
    }
    out
}

/// The color of a kind of claim.
pub open spec fn kind_color(kind: ClaimKind, theme: Theme) -> Color {
    match kind {
        ClaimKind::ExclusiveWrite => theme.error,
        ClaimKind::SharedRead => theme.accent,
        ClaimKind::AppendOnly => theme.success,
        ClaimKind::Soft => theme.border,
    }
}

/// The style of a claim: the less it has left, the weaker.
pub open spec fn claim_style(kind: ClaimKind, remaining: u64, theme: Theme) -> Style {
    let base: Style = Style::plain().fg(kind_color(kind, theme));
    if kind == ClaimKind::Soft {
        base.dim()
    } else if remaining >= 2 {
        base.bold()
    } else if remaining == 0 {
        base.dim()
    } else {
        base
    }
}

pub fn style_for(kind: ClaimKind, remaining: u64, theme: &Theme) -> (r: Style)
    ensures
        r == claim_style(kind, remaining, *theme),
{
    let base: Style = Style::plain().fg(
        match kind {
            ClaimKind::ExclusiveWrite => theme.error,
            ClaimKind::SharedRead => theme.accent,
            ClaimKind::AppendOnly => theme.success,
            ClaimKind::Soft => theme.border,
        },
    );
    if kind == ClaimKind::Soft {
        base.dim()
    } else if remaining >= 2 {
        base.bold()
    } else if remaining == 0 {
        base.dim()
    } else {
        base
    }
}

/// How many of the first `n` claims are of a kind.
pub open spec fn count_of(claims: Seq<ActiveClaim>, kind: ClaimKind, n: int) -> nat
    decreases n,
{
    if n <= 0 {
        0
    } else {
        count_of(claims, kind, n - 1) + (if claims[n - 1].claim.kind == kind {
            1nat
        } else {
            0nat
        })
    }
}

fn count_kind(claims: &Vec<ActiveClaim>, kind: ClaimKind) -> (r: usize)
    ensures
        r == count_of(claims@, kind, claims@.len() as int),
{
    let total: usize = claims.len();
    let mut n: usize = 0;
    let mut i: usize = 0;
    while i < total
        invariant
            i <= total == claims@.len(),
            n <= i,
            n == count_of(claims@, kind, i as int),
        decreases total - i,
    {
        if claims[i].claim.kind == kind {
            n += 1;
        }
        i += 1;
    }
    n
}

/// A kind and its count, where there are any.
pub open spec fn kind_part(claims: Seq<ActiveClaim>, kind: ClaimKind) -> Seq<Seq<char>> {
    let n: nat = count_of(claims, kind, claims.len() as int);
    if n > 0 {
        seq![label(kind) + " "@ + text::decimal(n)]
    } else {
        Seq::empty()
    }
}

/// How many claims of each kind there are, the kinds by name.
pub open spec fn kind_counts(claims: Seq<ActiveClaim>) -> Seq<char> {
    text::joined(
        kind_part(claims, ClaimKind::AppendOnly) + kind_part(claims, ClaimKind::ExclusiveWrite)
            + kind_part(claims, ClaimKind::SharedRead) + kind_part(claims, ClaimKind::Soft),
        ", "@,
    )
}

fn push_kind(out: &mut Vec<String>, claims: &Vec<ActiveClaim>, kind: ClaimKind)
    ensures
        text::texts(final(out)@) == text::texts(old(out)@) + kind_part(claims@, kind),
{
    broadcast use {text::group_texts, text::group_line_lists};

    let n: usize = count_kind(claims, kind);
    if n > 0 {
        let count: String = text::decimal_usize(n);
        let part: String = text::cat3(kind_label(kind), " ", count.as_str());
        let ghost before: Seq<Seq<char>> = text::texts(out@);
        let ghost more: Seq<char> = part@;
        out.push(part);
        assert(text::texts(out@) =~= before + seq![more]);
    }
}

pub fn count_by_kind(claims: &Vec<ActiveClaim>) -> (r: String)
    ensures
        r@ == kind_counts(claims@),
{
    broadcast use {text::group_texts, text::group_line_lists};

    let mut parts: Vec<String> = Vec::new();
    assert(text::texts(parts@) =~= Seq::<Seq<char>>::empty());
    push_kind(&mut parts, claims, ClaimKind::AppendOnly);
    assert(text::texts(parts@) =~= kind_part(claims@, ClaimKind::AppendOnly));
    push_kind(&mut parts, claims, ClaimKind::ExclusiveWrite);
    push_kind(&mut parts, claims, ClaimKind::SharedRead);
    push_kind(&mut parts, claims, ClaimKind::Soft);
    text::join(&parts, ", ")
}

/// Every claim is counted under its kind, and only there.
pub proof fn kinds_count_every_claim(claims: Seq<ActiveClaim>, n: int)
    requires
        0 <= n <= claims.len(),
    ensures
        count_of(claims, ClaimKind::AppendOnly, n) + count_of(claims, ClaimKind::ExclusiveWrite, n)
            + count_of(claims, ClaimKind::SharedRead, n) + count_of(claims, ClaimKind::Soft, n)
            == n,
    decreases n,
{
    if n > 0 {
        kinds_count_every_claim(claims, n - 1);
    }
}

/// The first line: how many claims there are, and of which kinds.
pub open spec fn summary(claims: Seq<ActiveClaim>, generation: u64) -> Seq<char> {
    let counts: Seq<char> = kind_counts(claims);
    if counts.len() == 0 {
        text::decimal(claims.len()) + " active   gen "@ + text::decimal(generation as nat)
    } else {
        text::decimal(claims.len()) + " active   ["@ + counts + "]   gen "@ + text::decimal(
            generation as nat,
        )
    }
}

fn summary_of(claims: &Vec<ActiveClaim>, generation: u64) -> (r: String)
    ensures
        r@ == summary(claims@, generation),
{
    let counts: String = count_by_kind(claims);
    let active: String = text::decimal_usize(claims.len());
    let gen_text: String = text::decimal_u64(generation);
    if text::length(counts.as_str()) == 0 {
        text::cat3(active.as_str(), " active   gen ", gen_text.as_str())
    } else {
        text::cat5(active.as_str(), " active   [", counts.as_str(), "]   gen ", gen_text.as_str())
    }
}

/// The age of what was posted in a generation.
pub open spec fn age(generation: u64, posted: u64) -> nat {
    text::monus(generation as int, posted as int) as nat
}

/// A claim in its row.
pub open spec fn claim_row(c: ActiveClaim, generation: u64, width: u16, theme: Theme) -> Seq<Piece> {
    seq![
        style::piece(
            row(
                text::decimal(c.remaining as nat) + "g"@,
                label(c.claim.kind),
                fit::truncated(short_id(c.claim.claimed_by@), 26),
                target_text(c.claim.target),
                text::decimal(age(generation, c.claim.claimed_at_gen)) + "g"@,
                fit::truncated(short_id(c.claim.id@), 36),
                width,
            ),
            claim_style(c.claim.kind, c.remaining, theme),
        ),
    ]
}

fn claim_line(c: &ActiveClaim, generation: u64, width: u16, theme: &Theme) -> (r: Line)
    ensures
        r@ == claim_row(*c, generation, width, *theme),
{
    let left: String = text::decimal_u64(c.remaining);
    let ttl: String = text::cat2(left.as_str(), "g");
    let since: String = text::decimal_u64(generation.saturating_sub(c.claim.claimed_at_gen));
    let old_for: String = text::cat2(since.as_str(), "g");
    let by: String = compact_agent_id(c.claim.claimed_by.as_str());
    let by_cut: String = fit::truncate_label(by.as_str(), 26);
    let id: String = compact_agent_id(c.claim.id.as_str());
    let id_cut: String = fit::truncate_label(id.as_str(), 36);
    let target: String = format_target(&c.claim.target);
    let line: String = format_row(
        ttl.as_str(),
        kind_label(c.claim.kind),
        by_cut.as_str(),
        target.as_str(),
        old_for.as_str(),
        id_cut.as_str(),
        width,
    );
    style::single(line, style_for(c.claim.kind, c.remaining, theme))
}

/// The list of claims.
pub open spec fn claim_rows(claims: Seq<ActiveClaim>, generation: u64, theme: Theme, width: u16) -> Seq<
    Seq<Piece>,
> {
    seq![
        seq![style::piece(summary(claims, generation), Style::plain().fg(theme.title).bold())],
        Seq::<Piece>::empty(),
        seq![
            style::piece(
                row("TTL"@, "KIND"@, "BY"@, "TARGET"@, "AGE"@, "ID"@, width),
                Style::plain().fg(theme.title).dim(),
            ),
        ],
    ] + (if claims.len() == 0 {
        seq![
            Seq::<Piece>::empty(),
            seq![
                style::piece(
                    "  No active claims. Agents haven't written files yet."@,
                    Style::plain().fg(theme.border).dim(),
                ),
            ],
        ]
    } else {
        Seq::new(claims.len(), |i: int| claim_row(claims[i], generation, width, theme))
    })
}

/// The lines of the list. The claims come in the order in which they are listed.
pub fn build_lines(claims: &Vec<ActiveClaim>, generation: u64, theme: &Theme, width: u16) -> (r: Vec<
    Line,
>)
    ensures
        style::rows(r@) == claim_rows(claims@, generation, *theme, width),
{
    let ghost want: Seq<Seq<Piece>> = claim_rows(claims@, generation, *theme, width);
    let mut out: Vec<Line> = Vec::new();
    out.push(style::single(summary_of(claims, generation), Style::plain().fg(theme.title).bold()));
    out.push(style::blank());
    out.push(
        style::single(
            format_row("TTL", "KIND", "BY", "TARGET", "AGE", "ID", width),
            Style::plain().fg(theme.title).dim(),
        ),
    );
    if claims.len() == 0 {
        out.push(style::blank());
        out.push(
            style::single(
                text::copy("  No active claims. Agents haven't written files yet."),
                Style::plain().fg(theme.border).dim(),
            ),
        );
        assert(style::rows(out@) =~= want);
        return out;
    }
    let mut i: usize = 0;
    assert(style::rows(out@) =~= want.take(3));
    while i < claims.len()
        invariant
            i <= claims@.len(),
            claims@.len() > 0,
            want == claim_rows(claims@, generation, *theme, width),
            style::rows(out@) == want.take(3 + i),
        decreases claims@.len() - i,
    {
        style::push_line(&mut out, claim_line(&claims[i], generation, width, theme));
        i += 1;
        assert(want.take(3 + i) =~= want.take(3 + i - 1) + seq![want[3 + i - 1]]);
    }
    assert(want.take(3 + i) =~= want);
    out
}

/// The inside of the list.
pub fn render_body(
    claims: &Vec<ActiveClaim>,
    generation: u64,
    scroll: usize,
    theme: &Theme,
    width: u16,
    height: u16,
) -> (r: OverlayBody)
    ensures
        overlays::shows(
            r,
            claim_rows(claims@, generation, *theme, width),
            scroll as int,
            height as int,
            *theme,
        ),
{
    let lines: Vec<Line> = build_lines(claims, generation, theme, width);
    overlays::overlay_body(lines, scroll, height, theme)
}

} // verus!
