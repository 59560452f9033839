//! The lines on the artifacts in colour.

use vstd::prelude::*;

use crate::agent_ops_view::artifacts;
use crate::agent_ops_view::segments;
use crate::agent_ops_view::segments::Segment;
use crate::agent_ops_view::styles;
use crate::style;
use crate::style::Color;
use crate::style::Line;
use crate::style::Piece;
use crate::style::Span;
use crate::style::Style;
use crate::style::Theme;
use crate::text;

verus! {

/// The colour that a line of a list has for the words in it.
pub open spec fn worded(line: Seq<char>, theme: Theme) -> Style {
    let plain: Style = Style::plain().fg(theme.foreground);
    if text::includes(line, "ERROR"@) || text::includes(line, "REJECTED"@) {
        plain.fg(theme.error)
    } else if text::includes(line, "WARN"@) {
        plain.fg(theme.warning)
    } else if text::includes(line, "RUNNING"@) || text::includes(line, "CONNECTED"@)
        || text::includes(line, "APPLIED"@) || text::includes(line, "REVIEWED"@) || (text::starts(
        line,
        "+"@,
    ) && !text::starts(line, "+++"@)) {
        plain.fg(theme.title_focused)
    } else if text::starts(line, "-"@) && !text::starts(line, "---"@) {
        plain.fg(theme.error)
    } else if text::includes(line, "NEW"@) || text::includes(line, "PLAN"@) {
        plain.fg(theme.accent)
    } else if text::includes(line, "IDLE"@) || text::includes(line, "DISCONNECTED"@) {
        plain.fg(theme.border).dim()
    } else {
        plain
    }
}

/// The style of a line that is no table row: the title, a rule, or what its words ask for.
pub open spec fn line_style(line_idx: int, line: Seq<char>, theme: Theme) -> Style {
    if line_idx == 0 {
        Style::plain().fg(theme.title)
    } else if line_idx == 1 || text::only(line, '─') {
        Style::plain().fg(theme.border).dim()
    } else if text::starts(line, ">"@) {
        worded(line, theme).bg(theme.selection_bg)
    } else {
        worded(line, theme)
    }
}

pub fn ops_line_style(line_idx: usize, line: &str, theme: &Theme) -> (r: Style)
    ensures
        r == line_style(line_idx as int, line@, *theme),
{
    if line_idx == 0 {
        return Style::plain().fg(theme.title);
    }
    if line_idx == 1 || text::is_only(line, '─') {
        return Style::plain().fg(theme.border).dim();
    }
    let plain: Style = Style::plain().fg(theme.foreground);
    let style: Style = if text::contains(line, "ERROR") || text::contains(line, "REJECTED") {
        plain.fg(theme.error)
    } else if text::contains(line, "WARN") {
        plain.fg(theme.warning)
    } else if text::contains(line, "RUNNING") || text::contains(line, "CONNECTED")
        || text::contains(line, "APPLIED") || text::contains(line, "REVIEWED") || (
    text::starts_with(line, "+") && !text::starts_with(line, "+++")) {
        plain.fg(theme.title_focused)
    } else if text::starts_with(line, "-") && !text::starts_with(line, "---") {
        plain.fg(theme.error)
    } else if text::contains(line, "NEW") || text::contains(line, "PLAN") {
        plain.fg(theme.accent)
    } else if text::contains(line, "IDLE") || text::contains(line, "DISCONNECTED") {
        plain.fg(theme.border).dim()
    } else {
        plain
    };
    if text::starts_with(line, ">") {
        style.bg(theme.selection_bg)
    } else {
        style
    }
}

/// Whether a label names a count.
pub open spec fn counts(label: Seq<char>) -> bool {
    label == "msgs"@ || label == "replies"@ || label == "patches"@ || label == "agents"@ || label
        == "evidence"@
}

/// Whether a label names what the run does.
pub open spec fn tells_state(label: Seq<char>) -> bool {
    label == "mission"@ || label == "mode"@ || label == "phase"@ || label == "status"@
}

/// Whether a label names a place to go to.
pub open spec fn links(label: Seq<char>) -> bool {
    label == "codex_thread"@ || label == "claude_session"@ || label == "root"@ || label == "run"@
        || label == "path"@ || label == "log"@ || label == "link"@
}

/// The style of a value behind its label.
pub open spec fn value_style(label: Seq<char>, value: Seq<char>, base: Style, theme: Theme) -> Style {
    let l: Seq<char> = text::lowered_text(text::trimmed(label));
    let v: Seq<char> = text::trimmed(value);
    if l == "agent"@ {
        base.fg(theme.warning).bold()
    } else if l == "context"@ {
        base.fg(theme.accent).bold()
    } else if l == "thread"@ {
        if text::same_letters(v, "yes"@) {
            base.fg(theme.success).bold()
        } else if text::same_letters(v, "no"@) {
            base.fg(theme.border).dim()
        } else {
            base.fg(theme.hl.link).underlined()
        }
    } else if counts(l) {
        match text::number(v, u64::MAX as nat) {
            Some(n) if n > 0 => base.fg(theme.accent).bold(),
            _ => base.fg(theme.border).dim(),
        }
    } else if tells_state(l) {
        base.fg(theme.accent).bold()
    } else if links(l) {
        base.fg(theme.hl.link).underlined()
    } else if l == "note"@ {
        base.fg(theme.border).dim()
    } else {
        base
    }
}

pub fn artifact_kv_value_style(label: &str, value: &str, base: Style, theme: &Theme) -> (r: Style)
    ensures
        r == value_style(label@, value@, base, *theme),
{
    let bare: String = text::trim(label);
    let lowered: String = text::lower_of(bare.as_str());
    let l: &str = lowered.as_str();
    let trimmed: String = text::trim(value);
    let v: &str = trimmed.as_str();
    if text::str_eq(l, "agent") {
        base.fg(theme.warning).bold()
    } else if text::str_eq(l, "context") {
        base.fg(theme.accent).bold()
    } else if text::str_eq(l, "thread") {
        if text::eq_ignore_case(v, "yes") {
            base.fg(theme.success).bold()
        } else if text::eq_ignore_case(v, "no") {
            base.fg(theme.border).dim()
        } else {
            base.fg(theme.hl.link).underlined()
        }
    } else if text::str_eq(l, "msgs") || text::str_eq(l, "replies") || text::str_eq(l, "patches")
        || text::str_eq(l, "agents") || text::str_eq(l, "evidence") {
        match text::parse_u64(v) {
            Some(n) => {
                if n > 0 {
                    base.fg(theme.accent).bold()
                } else {
                    base.fg(theme.border).dim()
                }
            },
            None => base.fg(theme.border).dim(),
        }
    } else if text::str_eq(l, "mission") || text::str_eq(l, "mode") || text::str_eq(l, "phase")
        || text::str_eq(l, "status") {
        base.fg(theme.accent).bold()
    } else if text::str_eq(l, "codex_thread") || text::str_eq(l, "claude_session") || text::str_eq(
        l,
        "root",
    ) || text::str_eq(l, "run") || text::str_eq(l, "path") || text::str_eq(l, "log")
        || text::str_eq(l, "link") {
        base.fg(theme.hl.link).underlined()
    } else if text::str_eq(l, "note") {
        base.fg(theme.border).dim()
    } else {
        base
    }
}

/// The style of the row of a card.
pub open spec fn card_style(line: Seq<char>, theme: Theme) -> Style {
    let selected: bool = text::starts(line, ">"@);
    let root: bool = artifacts::root_row(line);
    let kind: Seq<char> = text::tail(line, 3);
    let global: Style = Style::plain().bg(
        if selected {
            theme.selection_bg
        } else {
            style::dimmed(theme.border, theme.background, 85)
        },
    ).bold();
    if root && text::starts(kind, "REPORT"@) {
        global.fg(theme.accent)
    } else if root && text::starts(kind, "VERIFY"@) {
        global.fg(
            if text::includes(line, "FAIL"@) {
                theme.error
            } else if text::includes(line, "PASS"@) {
                theme.title_focused
            } else {
                theme.warning
            },
        )
    } else if selected {
        Style::plain().fg(theme.foreground).bg(theme.selection_bg)
    } else if artifacts::child_row(line) {
        Style::plain().fg(theme.foreground).bg(
            style::dimmed(theme.cursor_line_bg, theme.background, 60),
        )
    } else {
        Style::plain().fg(Color::Rgb(100, 190, 200)).bold()
    }
}

fn card_row_style(line: &str, theme: &Theme) -> (r: Style)
    ensures
        r == card_style(line@, *theme),
{
    let selected: bool = text::starts_with(line, ">");
    let root: bool = artifacts::is_artifacts_root_card_row(line);
    let kind: String = text::tail_of(line, 3);
    let global: Style = Style::plain().bg(
        if selected {
            theme.selection_bg
        } else {
            style::dim_bg_towards(theme.border, theme.background, 85)
        },
    ).bold();
    if root && text::starts_with(kind.as_str(), "REPORT") {
        global.fg(theme.accent)
    } else if root && text::starts_with(kind.as_str(), "VERIFY") {
        global.fg(
            if text::contains(line, "FAIL") {
                theme.error
            } else if text::contains(line, "PASS") {
                theme.title_focused
            } else {
                theme.warning
            },
        )
    } else if selected {
        Style::plain().fg(theme.foreground).bg(theme.selection_bg)
    } else if artifacts::is_artifacts_child_card_row(line) {
        Style::plain().fg(theme.foreground).bg(
            style::dim_bg_towards(theme.cursor_line_bg, theme.background, 60),
        )
    } else {
        Style::plain().fg(Color::Rgb(100, 190, 200)).bold()
    }
}

/// The style of a value behind its label.
pub open spec fn value_look(base: Style, theme: Theme) -> spec_fn(Seq<char>, Seq<char>) -> Style {
    |label: Seq<char>, value: Seq<char>| value_style(label, value, base, theme)
}

/// A line of labels and values.
pub open spec fn labelled(line: Seq<char>, base: Style, theme: Theme) -> Seq<Piece> {
    segments::pieces(
        styles::with_rest(Seq::empty(), text::lead(line), base),
        text::trimmed_start(line),
        base.fg(theme.border).dim(),
        base,
        value_look(base, theme),
    )
}

fn labelled_line(line: &str, base: Style, theme: &Theme) -> (r: Line)
    ensures
        r@ == labelled(line@, base, *theme),
{
    broadcast use style::group_lines;

    let dim: Style = base.fg(theme.border).dim();
    let trimmed: String = text::trim_start(line);
    let segs: Vec<String> = text::split_char(trimmed.as_str(), '|');
    let ghost all: Seq<Seq<char>> = text::texts(segs@);
    let none: Vec<Span> = Vec::new();
    assert(style::pieces(none@) =~= Seq::<Piece>::empty());
    let mut spans: Vec<Span> = styles::push_rest(none, text::lead_of(line), base);
    let ghost before: Seq<Piece> = style::pieces(spans@);
    proof {
        text::split_joins(trimmed@, '|');
    }
    let mut last: String = String::new();
    let mut i: usize = 0;
    while i < segs.len()
        invariant
            i <= segs@.len(),
            all == text::texts(segs@),
            all.len() == segs@.len(),
            dim == base.fg(theme.border).dim(),
            i > 0 ==> last@ == segments::behind_value(all[i - 1]),
            style::pieces(spans@) == segments::pieces_upto(
                before,
                all,
                dim,
                base,
                value_look(base, *theme),
                i as int,
            ),
        decreases segs@.len() - i,
    {
        broadcast use style::group_lines;

        assert(all[i as int] == segs@[i as int]@);
        let seg: Segment = segments::cut(segs[i].as_str());
        if i == 0 {
            spans = styles::push_rest(spans, seg.before.clone(), base);
        } else {
            let bar: String = text::cat3(last.as_str(), "|", seg.before.as_str());
            spans.push(style::styled(bar, dim));
        }
        let look: Style = artifact_kv_value_style(
            seg.label.as_str(),
            seg.value.as_str(),
            base,
            theme,
        );
        spans = segments::push_segment(spans, &seg, dim, base, look);
        last = seg.behind;
        i += 1;
    }
    assert(all.last() == all[i - 1]);
    Line { spans: styles::push_rest(spans, last, base) }
}

/// A line of the list in colour.
pub open spec fn styled_line(line_idx: int, line: Seq<char>, theme: Theme) -> Seq<Piece> {
    if line.len() == 0 {
        Seq::empty()
    } else if text::only(line, '─') {
        seq![style::piece(line, Style::plain().fg(theme.border).dim())]
    } else if line == " Items"@ {
        seq![style::piece(line, Style::plain().fg(theme.title_focused).bold())]
    } else if artifacts::is_row(line) {
        seq![style::piece(line, card_style(line, theme))]
    } else if text::has(text::trimmed_start(line), ':') {
        labelled(
            line,
            if text::starts(line, ">"@) {
                Style::plain().fg(theme.foreground).bg(theme.selection_bg)
            } else {
                Style::plain().fg(theme.foreground)
            },
            theme,
        )
    } else {
        seq![style::piece(line, line_style(line_idx, line, theme))]
    }
}

pub fn artifacts_styled_line(line_idx: usize, line: &str, theme: &Theme) -> (r: Line)
    ensures
        r@ == styled_line(line_idx as int, line@, *theme),
{
    if text::length(line) == 0 {
        return style::blank();
    }
    if text::is_only(line, '─') {
        return style::single(text::copy(line), Style::plain().fg(theme.border).dim());
    }
    if text::str_eq(line, " Items") {
        return style::single(text::copy(line), Style::plain().fg(theme.title_focused).bold());
    }
    if artifacts::is_artifacts_card_row(line) {
        return style::single(text::copy(line), card_row_style(line, theme));
    }
    let trimmed: String = text::trim_start(line);
    if text::has_char(trimmed.as_str(), ':') {
        let base: Style = Style::plain().fg(theme.foreground);
        return labelled_line(
            line,
            if text::starts_with(line, ">") {
                base.bg(theme.selection_bg)
            } else {
                base
            },
            theme,
        );
    }
    style::single(text::copy(line), ops_line_style(line_idx, line, theme))
}

/// Every line of the list is drawn with its own text.
pub proof fn drawn_lines_keep_text(line_idx: int, line: Seq<char>, theme: Theme)
    ensures
        style::plain_text(styled_line(line_idx, line, theme)) == line,
{
    let all: Seq<Piece> = styled_line(line_idx, line, theme);
    if line.len() == 0 {
        assert(all =~= Seq::<Piece>::empty());
        assert(style::plain_text(all) =~= line);
    } else if !text::only(line, '─') && line != " Items"@ && !artifacts::is_row(line) && text::has(
        text::trimmed_start(line),
        ':',
    ) {
        let base: Style = if text::starts(line, ">"@) {
            Style::plain().fg(theme.foreground).bg(theme.selection_bg)
        } else {
            Style::plain().fg(theme.foreground)
        };
        let none: Seq<Piece> = Seq::empty();
        styles::rest_keeps_text(none, text::lead(line), base);
        segments::pieces_keep_text(
            styles::with_rest(none, text::lead(line), base),
            text::trimmed_start(line),
            base.fg(theme.border).dim(),
            base,
            value_look(base, theme),
        );
        text::lead_and_rest(line);
        assert(Seq::<char>::empty() + text::lead(line) =~= text::lead(line));
    } else {
        style::one_piece_text(all[0]);
        assert(all =~= seq![all[0]]);
    }
}

} // verus!
