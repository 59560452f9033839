//! The bar of tabs and the line of keys.

use vstd::prelude::*;

use crate::agent_ops_view::styles;
use crate::state::AgentOpsTab;
use crate::style;
use crate::style::Line;
use crate::style::Piece;
use crate::style::Span;
use crate::style::Style;
use crate::style::Theme;
use crate::text;

verus! {

/// The tabs in their order.
pub open spec fn tabs() -> Seq<AgentOpsTab> {
    seq![
        AgentOpsTab::Roster,
        AgentOpsTab::Missions,
        AgentOpsTab::Dag,
        AgentOpsTab::Evidence,
        AgentOpsTab::Mcp,
        AgentOpsTab::Alerts,
        AgentOpsTab::Diagnostics,
        AgentOpsTab::Scratchpad,
    ]
}

fn tab_of(i: usize) -> (r: AgentOpsTab)
    requires
        i < 8,
    ensures
        r == tabs()[i as int],
{
    match i {
        0 => AgentOpsTab::Roster,
        1 => AgentOpsTab::Missions,
        2 => AgentOpsTab::Dag,
        3 => AgentOpsTab::Evidence,
        4 => AgentOpsTab::Mcp,
        5 => AgentOpsTab::Alerts,
        6 => AgentOpsTab::Diagnostics,
        _ => AgentOpsTab::Scratchpad,
    }
}

/// The tab that is lit: the hidden one is shown as diagnostics.
pub open spec fn lit(tab: AgentOpsTab) -> AgentOpsTab {
    if tab == AgentOpsTab::Patch {
        AgentOpsTab::Diagnostics
    } else {
        tab
    }
}

/// The first `n` tabs of the bar.
pub open spec fn tab_pieces(
    labels: Seq<Seq<char>>,
    current: AgentOpsTab,
    theme: Theme,
    n: int,
) -> Seq<Piece>
    decreases n,
{
    if n <= 0 {
        Seq::empty()
    } else {
        let before: Seq<Piece> = tab_pieces(labels, current, theme, n - 1);
        let spaced: Seq<Piece> = if n > 1 {
            before.push(style::piece("  "@, Style::plain()))
        } else {
            before
        };
        spaced.push(
            style::piece(
                labels[n - 1],
                if lit(current) == tabs()[n - 1] {
                    Style::plain().fg(theme.title_focused).bold().underlined()
                } else {
                    Style::plain().fg(theme.border)
                },
            ),
        )
    }
}

/// The bar of tabs with their labels.
pub fn tab_line(labels: &Vec<String>, current: AgentOpsTab, theme: &Theme) -> (r: Line)
    requires
        labels@.len() == 8,
    ensures
        r@ == tab_pieces(text::texts(labels@), current, *theme, 8),
{
    broadcast use style::group_lines;

    let active: AgentOpsTab = match current {
        AgentOpsTab::Patch => AgentOpsTab::Diagnostics,
        other => other,
    };
    let ghost all: Seq<Seq<char>> = text::texts(labels@);
    let mut spans: Vec<Span> = Vec::new();
    let mut i: usize = 0;
    while i < 8
        invariant
            i <= 8,
            labels@.len() == 8,
            all == text::texts(labels@),
            active == lit(current),
            style::pieces(spans@) == tab_pieces(all, current, *theme, i as int),
        decreases 8 - i,
    {
        if i > 0 {
            spans.push(style::span("  ", Style::plain()));
        }
        assert(all[i as int] == labels@[i as int]@);
        spans.push(
            style::span(
                labels[i].as_str(),
                if active == tab_of(i) {
                    Style::plain().fg(theme.title_focused).bold().underlined()
                } else {
                    Style::plain().fg(theme.border)
                },
            ),
        );
        i += 1;
    }
    Line { spans }
}

/// Where tab `n` starts in the bar.
pub open spec fn tab_start(labels: Seq<Seq<char>>, n: int) -> int
    decreases n,
{
    if n <= 0 {
        0
    } else {
        tab_start(labels, n - 1) + text::counted_bytes(labels[n - 1]) + 2
    }
}

pub open spec fn on_tab(labels: Seq<Seq<char>>, n: int, col: int) -> bool {
    tab_start(labels, n) <= col < tab_start(labels, n) + text::counted_bytes(labels[n])
}

proof fn starts_grow(labels: Seq<Seq<char>>, n: int, m: int)
    requires
        0 <= n <= m,
    ensures
        0 <= tab_start(labels, n) <= tab_start(labels, m),
    decreases m,
{
    if n < m {
        starts_grow(labels, n, m - 1);
    } else if n > 0 {
        starts_grow(labels, n - 1, n - 1);
    }
}

/// The tab under a column of the bar.
pub fn tab_at_column(labels: &Vec<String>, col: usize) -> (r: Option<AgentOpsTab>)
    requires
        labels@.len() == 8,
    ensures
        match r {
            Some(tab) => exists|n: int|
                #![trigger tabs()[n]]
                0 <= n < 8 && tabs()[n] == tab && on_tab(text::texts(labels@), n, col as int),
            None => forall|n: int|
                0 <= n < 8 ==> !#[trigger] on_tab(text::texts(labels@), n, col as int),
        },
{
    let ghost all: Seq<Seq<char>> = text::texts(labels@);
    let mut x: usize = 0;
    let mut i: usize = 0;
    while i < 8
        invariant
            i <= 8,
            labels@.len() == 8,
            all == text::texts(labels@),
            x == tab_start(all, i as int),
            x <= col,
            forall|n: int| 0 <= n < i ==> !#[trigger] on_tab(all, n, col as int),
        decreases 8 - i,
    {
        assert(all[i as int] == labels@[i as int]@);
        let len: usize = text::length_in_bytes(labels[i].as_str());
        if col - x < len {
            assert(on_tab(all, i as int, col as int));
            assert(tabs()[i as int] == tabs()[i as int]);
            return Some(tab_of(i));
        }
        assert(!on_tab(all, i as int, col as int));
        if i == 7 || col - x - len < 2 {
            proof {
                assert forall|n: int| 0 <= n < 8 implies !#[trigger] on_tab(all, n, col as int) by {
                    if n > i {
                        starts_grow(all, i + 1, n);
                    }
                }
            }
            return None;
        }
        x = x + len + 2;
        i += 1;
    }
    None
}

/// No two tabs share a column.
pub proof fn tabs_are_apart(labels: Seq<Seq<char>>, n: int, m: int, col: int)
    requires
        0 <= n < m,
        on_tab(labels, n, col),
    ensures
        !on_tab(labels, m, col),
{
    starts_grow(labels, n + 1, m);
}

proof fn ascii_bytes(s: Seq<char>, n: int)
    requires
        0 <= n <= s.len(),
        forall|i: int| 0 <= i < s.len() ==> (#[trigger] s[i] as u32) < 0x80,
    ensures
        text::bytes_upto(s, n) == n,
    decreases n,
{
    if n > 0 {
        ascii_bytes(s, n - 1);
        assert((s[n - 1] as u32) < 0x80);
    }
}

/// A click matches what is drawn: where the labels are plain ASCII, a tab is under the columns
/// that its label takes up in the text of the bar.
pub proof fn bar_matches_clicks(labels: Seq<Seq<char>>, current: AgentOpsTab, theme: Theme, n: int)
    requires
        0 <= n <= labels.len(),
        forall|k: int| 0 <= k < labels.len() ==> (#[trigger] labels[k]).len() <= usize::MAX,
        forall|k: int, i: int|
            0 <= k < labels.len() && 0 <= i < labels[k].len() ==> (#[trigger] labels[k][i] as u32)
                < 0x80,
    ensures
        n > 0 ==> style::plain_text(tab_pieces(labels, current, theme, n)).len() == tab_start(
            labels,
            n - 1,
        ) + labels[n - 1].len(),
        n > 0 ==> style::plain_text(tab_pieces(labels, current, theme, n)).subrange(
            tab_start(labels, n - 1),
            tab_start(labels, n - 1) + labels[n - 1].len(),
        ) == labels[n - 1],
    decreases n,
{
    reveal_strlit("  ");
    if n > 0 {
        bar_matches_clicks(labels, current, theme, n - 1);
        let label: Seq<char> = labels[n - 1];
        assert forall|i: int| 0 <= i < label.len() implies (#[trigger] label[i] as u32) < 0x80 by {
            assert((labels[n - 1][i] as u32) < 0x80);
        }
        ascii_bytes(label, label.len() as int);
        let before: Seq<Piece> = tab_pieces(labels, current, theme, n - 1);
        let gap: Piece = style::piece("  "@, Style::plain());
        let look: Style = if lit(current) == tabs()[n - 1] {
            Style::plain().fg(theme.title_focused).bold().underlined()
        } else {
            Style::plain().fg(theme.border)
        };
        style::plain_text_push(before, gap);
        if n > 1 {
            let last: Seq<char> = labels[n - 2];
            assert forall|i: int| 0 <= i < last.len() implies (#[trigger] last[i] as u32)
                < 0x80 by {
                assert((labels[n - 2][i] as u32) < 0x80);
            }
            ascii_bytes(last, last.len() as int);
            style::plain_text_push(before.push(gap), style::piece(label, look));
        } else {
            assert(tab_start(labels, 0) == 0);
            style::plain_text_push(before, style::piece(label, look));
        }
        let shown: Seq<char> = style::plain_text(tab_pieces(labels, current, theme, n));
        assert(shown.subrange(
            tab_start(labels, n - 1),
            tab_start(labels, n - 1) + label.len(),
        ) =~= label);
    }
}

/// A key and what it does.
pub open spec fn key_pieces(key: Seq<char>, what: Seq<char>, theme: Theme) -> Seq<Piece> {
    seq![
        style::piece(key, Style::plain().fg(theme.title).bold()),
        style::piece(what, styles::muted(theme)),
    ]
}

pub open spec fn gap(theme: Theme) -> Seq<Piece> {
    seq![style::piece("  "@, styles::muted(theme))]
}

/// The keys of a tab.
pub open spec fn tab_keys(tab: AgentOpsTab, theme: Theme) -> Seq<Piece> {
    match tab {
        AgentOpsTab::Roster => key_pieces("h/l"@, " size"@, theme) + gap(theme) + key_pieces(
            "Space"@,
            " set"@,
            theme,
        ) + gap(theme) + key_pieces("c"@, " reset"@, theme) + gap(theme) + key_pieces(
            "Enter"@,
            " chat"@,
            theme,
        ),
        AgentOpsTab::Missions => key_pieces("n"@, " new"@, theme) + gap(theme) + key_pieces(
            "Enter"@,
            " chat"@,
            theme,
        ),
        AgentOpsTab::Evidence => key_pieces("Enter"@, " open"@, theme) + gap(theme) + key_pieces(
            "Esc"@,
            " close"@,
            theme,
        ),
        AgentOpsTab::Mcp => key_pieces("r"@, " reconnect"@, theme) + gap(theme) + key_pieces(
            "s"@,
            " start"@,
            theme,
        ) + gap(theme) + key_pieces("x"@, " stop"@, theme),
        AgentOpsTab::Alerts => key_pieces("Enter"@, " chat"@, theme),
        AgentOpsTab::Scratchpad => key_pieces("Enter"@, " chat"@, theme),
        AgentOpsTab::Dag => key_pieces("j/k"@, " scroll"@, theme),
        AgentOpsTab::Diagnostics => key_pieces("j/k"@, " scroll"@, theme),
        AgentOpsTab::Patch => key_pieces("j/k"@, " scroll"@, theme),
    }
}

/// The line of keys.
pub open spec fn footer_pieces(tab: AgentOpsTab, theme: Theme) -> Seq<Piece> {
    seq![style::piece("Keys: "@, styles::muted(theme))] + key_pieces("Tab"@, " tabs"@, theme)
        + gap(theme) + key_pieces("j/k"@, " move"@, theme) + gap(theme) + tab_keys(tab, theme)
}

fn push_key(spans: &mut Vec<Span>, key: &str, what: &str, theme: &Theme)
    ensures
        style::pieces(final(spans)@) == style::pieces(old(spans)@) + key_pieces(
            key@,
            what@,
            *theme,
        ),
{
    broadcast use style::group_lines;

    let ghost before: Seq<Piece> = style::pieces(spans@);
    spans.push(style::span(key, Style::plain().fg(theme.title).bold()));
    spans.push(style::span(what, styles::muted(*theme)));
    assert(style::pieces(spans@) =~= before + key_pieces(key@, what@, *theme));
}

fn push_gap(spans: &mut Vec<Span>, theme: &Theme)
    ensures
        style::pieces(final(spans)@) == style::pieces(old(spans)@) + gap(*theme),
{
    broadcast use style::group_lines;

    let ghost before: Seq<Piece> = style::pieces(spans@);
    spans.push(style::span("  ", styles::muted(*theme)));
    assert(style::pieces(spans@) =~= before + gap(*theme));
}

fn keys_of(tab: AgentOpsTab, theme: &Theme) -> (r: Vec<Span>)
    ensures
        style::pieces(r@) == tab_keys(tab, *theme),
{
    broadcast use style::group_lines;

    let mut spans: Vec<Span> = Vec::new();
    match tab {
        AgentOpsTab::Roster => {
            push_key(&mut spans, "h/l", " size", theme);
            push_gap(&mut spans, theme);
            push_key(&mut spans, "Space", " set", theme);
            push_gap(&mut spans, theme);
            push_key(&mut spans, "c", " reset", theme);
            push_gap(&mut spans, theme);
            push_key(&mut spans, "Enter", " chat", theme);
        },
        AgentOpsTab::Missions => {
            push_key(&mut spans, "n", " new", theme);
            push_gap(&mut spans, theme);
            push_key(&mut spans, "Enter", " chat", theme);
        },
        AgentOpsTab::Evidence => {
            push_key(&mut spans, "Enter", " open", theme);
            push_gap(&mut spans, theme);
            push_key(&mut spans, "Esc", " close", theme);
        },
        AgentOpsTab::Mcp => {
            push_key(&mut spans, "r", " reconnect", theme);
            push_gap(&mut spans, theme);
            push_key(&mut spans, "s", " start", theme);
            push_gap(&mut spans, theme);
            push_key(&mut spans, "x", " stop", theme);
        },
        AgentOpsTab::Alerts => {
            push_key(&mut spans, "Enter", " chat", theme);
        },
        AgentOpsTab::Scratchpad => {
            push_key(&mut spans, "Enter", " chat", theme);
        },
        AgentOpsTab::Dag => {
            push_key(&mut spans, "j/k", " scroll", theme);
        },
        AgentOpsTab::Diagnostics => {
            push_key(&mut spans, "j/k", " scroll", theme);
        },
        AgentOpsTab::Patch => {
            push_key(&mut spans, "j/k", " scroll", theme);
        },
    }
    assert(style::pieces(spans@) =~= tab_keys(tab, *theme));
    spans
}

pub fn footer_line(tab: AgentOpsTab, theme: &Theme) -> (r: Line)
    ensures
        r@ == footer_pieces(tab, *theme),
{
    broadcast use style::group_lines;

    let mut spans: Vec<Span> = vec![style::span("Keys: ", styles::muted(*theme))];
    assert(style::pieces(spans@) =~= seq![style::piece("Keys: "@, styles::muted(*theme))]);
    push_key(&mut spans, "Tab", " tabs", theme);
    push_gap(&mut spans, theme);
    push_key(&mut spans, "j/k", " move", theme);
    push_gap(&mut spans, theme);
    let mut keys: Vec<Span> = keys_of(tab, theme);
    spans.append(&mut keys);
    Line { spans }
}

} // verus!
