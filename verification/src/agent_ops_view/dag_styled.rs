//! The lines on the tasks of a swarm in colour.

use vstd::prelude::*;

use crate::agent_ops_view::dag;
use crate::agent_ops_view::glyphs;
use crate::agent_ops_view::segments;
use crate::agent_ops_view::segments::Segment;
use crate::agent_ops_view::styles;
use crate::fit;
use crate::style;
use crate::style::Line;
use crate::style::Piece;
use crate::style::Span;
use crate::style::Style;
use crate::style::Theme;
use crate::text;

verus! {

/// The style of a state of a task or of a swarm.
pub open spec fn state_style(state: Seq<char>, base: Style, theme: Theme) -> Style {
    let s: Seq<char> = text::trimmed(state);
    if text::same_letters(s, "running"@) {
        base.fg(theme.title_focused)
    } else if text::same_letters(s, "queued"@) || text::same_letters(s, "pending"@) {
        base.fg(theme.accent)
    } else if text::same_letters(s, "failed"@) || text::same_letters(s, "fail"@) {
        base.fg(theme.error)
    } else if text::same_letters(s, "done"@) || text::same_letters(s, "skipped"@)
        || text::same_letters(s, "skip"@) {
        base.fg(theme.border).dim()
    } else if text::same_letters(s, "plan"@) || text::same_letters(s, "verify"@)
        || text::same_letters(s, "synth"@) {
        base.fg(theme.accent).bold()
    } else if text::same_letters(s, "idle"@) || text::same_letters(s, "empty"@) {
        base.fg(theme.border).dim()
    } else {
        base.fg(theme.foreground)
    }
}

pub fn dag_state_style(state: &str, base: Style, theme: &Theme) -> (r: Style)
    ensures
        r == state_style(state@, base, *theme),
{
    let bare: String = text::trim(state);
    let s: &str = bare.as_str();
    if text::eq_ignore_case(s, "running") {
        base.fg(theme.title_focused)
    } else if text::eq_ignore_case(s, "queued") || text::eq_ignore_case(s, "pending") {
        base.fg(theme.accent)
    } else if text::eq_ignore_case(s, "failed") || text::eq_ignore_case(s, "fail") {
        base.fg(theme.error)
    } else if text::eq_ignore_case(s, "done") || text::eq_ignore_case(s, "skipped")
        || text::eq_ignore_case(s, "skip") {
        base.fg(theme.border).dim()
    } else if text::eq_ignore_case(s, "plan") || text::eq_ignore_case(s, "verify")
        || text::eq_ignore_case(s, "synth") {
        base.fg(theme.accent).bold()
    } else if text::eq_ignore_case(s, "idle") || text::eq_ignore_case(s, "empty") {
        base.fg(theme.border).dim()
    } else {
        base.fg(theme.foreground)
    }
}

/// The style of the result of a gate.
pub open spec fn gate_style(status: Seq<char>, base: Style, theme: Theme) -> Style {
    if status == "PASS"@ {
        base.fg(theme.title_focused)
    } else if status == "FAIL"@ {
        base.fg(theme.error)
    } else if status == "PENDING"@ {
        base.fg(theme.border).dim()
    } else {
        base.fg(theme.foreground)
    }
}

pub fn dag_gate_status_style(status: &str, base: Style, theme: &Theme) -> (r: Style)
    ensures
        r == gate_style(status@, base, *theme),
{
    if text::str_eq(status, "PASS") {
        base.fg(theme.title_focused)
    } else if text::str_eq(status, "FAIL") {
        base.fg(theme.error)
    } else if text::str_eq(status, "PENDING") {
        base.fg(theme.border).dim()
    } else {
        base.fg(theme.foreground)
    }
}

pub open spec fn row_style(theme: Theme) -> Style {
    Style::plain().bg(styles::ops_table_bg(theme)).fg(theme.foreground)
}

pub open spec fn dim_style(theme: Theme) -> Style {
    Style::plain().bg(styles::ops_table_bg(theme)).fg(theme.border).dim()
}

/// The style of a value of the block on the swarm.
pub open spec fn swarm_value_style(label: Seq<char>, value: Seq<char>, theme: Theme) -> Style {
    if text::same_letters(label, "status"@) {
        state_style(value, row_style(theme), theme)
    } else if text::same_letters(label, "phase"@) {
        row_style(theme).fg(theme.accent).bold()
    } else {
        row_style(theme)
    }
}

/// The style of a value of the block of counts.
pub open spec fn count_value_style(label: Seq<char>, theme: Theme) -> Style {
    if text::same_letters(label, "fail"@) {
        row_style(theme).fg(theme.error)
    } else if text::same_letters(label, "run"@) {
        row_style(theme).fg(theme.title_focused)
    } else if text::same_letters(label, "queue"@) || text::same_letters(label, "pending"@) {
        row_style(theme).fg(theme.accent)
    } else if text::same_letters(label, "done"@) {
        row_style(theme).fg(theme.title)
    } else if text::same_letters(label, "skip"@) {
        row_style(theme).fg(theme.border).dim()
    } else {
        row_style(theme)
    }
}

fn value_style(label: &str, value: &str, counts: bool, theme: &Theme) -> (r: Style)
    ensures
        r == (if counts {
            count_value_style(label@, *theme)
        } else {
            swarm_value_style(label@, value@, *theme)
        }),
{
    let row: Style = Style::plain().bg(styles::ops_table_bg(*theme)).fg(theme.foreground);
    if counts {
        if text::eq_ignore_case(label, "fail") {
            row.fg(theme.error)
        } else if text::eq_ignore_case(label, "run") {
            row.fg(theme.title_focused)
        } else if text::eq_ignore_case(label, "queue") || text::eq_ignore_case(label, "pending") {
            row.fg(theme.accent)
        } else if text::eq_ignore_case(label, "done") {
            row.fg(theme.title)
        } else if text::eq_ignore_case(label, "skip") {
            row.fg(theme.border).dim()
        } else {
            row
        }
    } else if text::eq_ignore_case(label, "status") {
        dag_state_style(value, row, theme)
    } else if text::eq_ignore_case(label, "phase") {
        row.fg(theme.accent).bold()
    } else {
        row
    }
}

/// The style of a value behind its label.
pub open spec fn value_look(counts: bool, theme: Theme) -> spec_fn(Seq<char>, Seq<char>) -> Style {
    |label: Seq<char>, value: Seq<char>|
        if counts {
            count_value_style(label, theme)
        } else {
            swarm_value_style(label, value, theme)
        }
}

/// The segments of a block's line.
pub open spec fn segment_pieces(line: Seq<char>, counts: bool, theme: Theme) -> Seq<Piece> {
    segments::pieces(
        seq![style::piece(text::lead(line), row_style(theme))],
        text::trimmed_start(line),
        dim_style(theme),
        row_style(theme),
        value_look(counts, theme),
    )
}

fn segments_line(line: &str, counts: bool, theme: &Theme) -> (r: Line)
    ensures
        r@ == segment_pieces(line@, counts, *theme),
{
    broadcast use style::group_lines;

    let row: Style = Style::plain().bg(styles::ops_table_bg(*theme)).fg(theme.foreground);
    let dim: Style = Style::plain().bg(styles::ops_table_bg(*theme)).fg(theme.border).dim();
    let trimmed: String = text::trim_start(line);
    let segs: Vec<String> = text::split_char(trimmed.as_str(), '|');
    let ghost all: Seq<Seq<char>> = text::texts(segs@);
    let mut spans: Vec<Span> = vec![style::styled(text::lead_of(line), row)];
    let ghost before: Seq<Piece> = seq![style::piece(text::lead(line@), row)];
    assert(style::pieces(spans@) =~= before);
    proof {
        text::split_joins(trimmed@, '|');
    }
    let mut last: String = String::new();
    let mut i: usize = 0;
    while i < segs.len()
        invariant
            i <= segs@.len(),
            all == text::texts(segs@),
            all.len() == segs@.len(),
            row == row_style(*theme),
            dim == dim_style(*theme),
            i > 0 ==> last@ == segments::behind_value(all[i - 1]),
            style::pieces(spans@) == segments::pieces_upto(
                before,
                all,
                dim,
                row,
                value_look(counts, *theme),
                i as int,
            ),
        decreases segs@.len() - i,
    {
        broadcast use style::group_lines;

        assert(all[i as int] == segs@[i as int]@);
        let seg: Segment = segments::cut(segs[i].as_str());
        if i == 0 {
            spans = styles::push_rest(spans, seg.before.clone(), row);
        } else {
            let bar: String = text::cat3(last.as_str(), "|", seg.before.as_str());
            spans.push(style::styled(bar, dim));
        }
        let look: Style = value_style(seg.label.as_str(), seg.value.as_str(), counts, theme);
        spans = segments::push_segment(spans, &seg, dim, row, look);
        last = seg.behind;
        i += 1;
    }
    assert(all.last() == all[i - 1]);
    Line { spans: styles::push_rest(spans, last, row) }
}

/// Whether a label is one of the block on the swarm.
pub open spec fn swarm_label(label: Seq<char>) -> bool {
    text::same_letters(label, "status"@) || text::same_letters(label, "mission"@)
        || text::same_letters(label, "template"@) || text::same_letters(label, "phase"@)
}

fn is_swarm_label(label: &str) -> (r: bool)
    ensures
        r == swarm_label(label@),
{
    text::eq_ignore_case(label, "status") || text::eq_ignore_case(label, "mission")
        || text::eq_ignore_case(label, "template") || text::eq_ignore_case(label, "phase")
}

/// Whether a label is one of the block of counts.
pub open spec fn count_label(label: Seq<char>) -> bool {
    text::same_letters(label, "done"@) || text::same_letters(label, "fail"@) || text::same_letters(
        label,
        "run"@,
    ) || text::same_letters(label, "queue"@) || text::same_letters(label, "pending"@)
        || text::same_letters(label, "skip"@)
}

fn is_count_label(label: &str) -> (r: bool)
    ensures
        r == count_label(label@),
{
    text::eq_ignore_case(label, "done") || text::eq_ignore_case(label, "fail")
        || text::eq_ignore_case(label, "run") || text::eq_ignore_case(label, "queue")
        || text::eq_ignore_case(label, "pending") || text::eq_ignore_case(label, "skip")
}

/// Whether a line tells that there is nothing to show.
pub open spec fn is_notice(trimmed: Seq<char>) -> bool {
    text::starts(trimmed, "No "@) || text::starts(trimmed, "Mission "@) || text::starts(
        trimmed,
        "Swarm runtime"@,
    ) || text::starts(trimmed, "No DAG data"@) || text::starts(trimmed, "Planning:"@)
        || text::starts(trimmed, "No tasks."@)
}

fn notices(trimmed: &str) -> (r: bool)
    ensures
        r == is_notice(trimmed@),
{
    text::starts_with(trimmed, "No ") || text::starts_with(trimmed, "Mission ")
        || text::starts_with(trimmed, "Swarm runtime") || text::starts_with(trimmed, "No DAG data")
        || text::starts_with(trimmed, "Planning:") || text::starts_with(trimmed, "No tasks.")
}

/// Three cells of a table in their styles.
pub open spec fn three_cells(
    line: Seq<char>,
    widths: Seq<usize>,
    marker: Style,
    a: Style,
    b: Style,
    c: Style,
    space: Style,
) -> Seq<Piece> {
    styles::table_row(line, widths, marker, seq![a, b, c], space)
}

fn three_cells_line(
    line: &str,
    widths: &Vec<usize>,
    marker_style: Style,
    a: Style,
    b: Style,
    c: Style,
    space: Style,
) -> (r: Line)
    requires
        widths@.len() == 3,
    ensures
        r@ == three_cells(line@, widths@, marker_style, a, b, c, space),
{
    let looks: Vec<Style> = vec![a, b, c];
    assert(looks@ =~= seq![a, b, c]);
    styles::styled_row(line, widths, marker_style, &looks, space)
}

/// The result in the cells of a gate's row.
pub open spec fn gate_status(line: Seq<char>, usable: int) -> Seq<char> {
    text::trimmed(fit::columns_of(line, dag::gate_widths(text::monus(usable, 1)))[1])
}

pub open spec fn is_gate_status(status: Seq<char>) -> bool {
    status == "PENDING"@ || status == "PASS"@ || status == "FAIL"@
}

/// The row of a gate.
pub open spec fn gate_pieces(line: Seq<char>, usable: int, theme: Theme) -> Seq<Piece> {
    let widths: Seq<usize> = dag::gate_widths(text::monus(usable, 1));
    let row: Style = row_style(theme);
    three_cells(
        line,
        widths,
        row,
        row.fg(theme.title_focused),
        gate_style(gate_status(line, usable), row, theme),
        if text::trimmed(fit::columns_of(line, widths)[0]).len() == 0 {
            row.dim()
        } else {
            row
        },
        row,
    )
}

/// The row of a task, or of its details.
pub open spec fn task_pieces(
    line: Seq<char>,
    usable: int,
    arrow: char,
    theme: Theme,
) -> Seq<Piece> {
    let widths: Seq<usize> = dag::task_widths(text::monus(usable, 1));
    let cols: Seq<Seq<char>> = fit::columns_of(line, widths);
    let row: Style = row_style(theme);
    let details: bool = text::trimmed(cols[0]).len() == 0 && text::trimmed(cols[1]).len() == 0
        && text::starts(text::trimmed_start(cols[2]), seq![arrow]);
    three_cells(
        line,
        widths,
        row.fg(theme.border).dim(),
        if details {
            dim_style(theme)
        } else {
            row.fg(theme.title_focused)
        },
        if details {
            dim_style(theme)
        } else {
            state_style(text::trimmed(cols[1]), row, theme)
        },
        if details {
            row.dim()
        } else {
            row
        },
        row,
    )
}

/// A line of the tab whose text is `line`.
pub open spec fn styled_line(
    line: Seq<char>,
    usable: int,
    ascii: bool,
    theme: Theme,
) -> Seq<Piece> {
    let total: int = text::monus(usable, 1);
    let row: Style = row_style(theme);
    let dim: Style = dim_style(theme);
    let trimmed: Seq<char> = text::trimmed_start(line);
    let label: Seq<char> = match text::around(trimmed, ":"@) {
        Some(parts) => text::trimmed(parts.0),
        None => Seq::empty(),
    };
    if swarm_label(label) {
        segment_pieces(line, false, theme)
    } else if count_label(label) {
        segment_pieces(line, true, theme)
    } else if text::starts(trimmed, "Gate:"@) {
        let rest: Seq<char> = text::after_prefix(trimmed, "Gate:"@)->0;
        let value: Seq<char> = text::trimmed(rest);
        styles::with_rest(
            seq![
                style::piece(text::lead(line), row),
                style::piece("Gate:"@, dim),
                style::piece(text::lead(rest), row),
                style::piece(value, row.fg(theme.title_focused)),
            ],
            text::tail(text::trimmed_start(rest), value.len() as int),
            row,
        )
    } else if text::starts(trimmed, "Swarm DAG"@) || text::starts(trimmed, "Gate bundle:"@) {
        seq![style::piece(line, styles::plain_text(theme))]
    } else if line.len() > 0 && line[0] == '─' {
        seq![style::piece(line, dim)]
    } else if text::starts(trimmed, "ID"@) {
        three_cells(line, dag::task_widths(total), dim, dim, dim, dim, dim)
    } else if text::starts(trimmed, "GATE"@) {
        three_cells(line, dag::gate_widths(total), dim, dim, dim, dim, dim)
    } else if is_gate_status(gate_status(line, usable)) {
        gate_pieces(line, usable, theme)
    } else if is_notice(trimmed) {
        seq![style::piece(line, dim)]
    } else {
        task_pieces(line, usable, glyphs::arrow_glyph(ascii), theme)
    }
}

fn columns(line: &str, widths: &Vec<usize>) -> (r: Vec<String>)
    requires
        widths@.len() > 0,
    ensures
        r@.len() == widths@.len(),
        text::texts(r@) == fit::columns_of(line@, widths@),
{
    match fit::split_marker_and_columns(line, widths) {
        Some(mc) => mc.1,
        None => Vec::new(),
    }
}

pub fn dag_styled_line(line: &str, usable: usize, ascii: bool, theme: &Theme) -> (r: Line)
    ensures
        r@ == styled_line(line@, usable as int, ascii, *theme),
{
    let total: usize = text::minus(usable, 1);
    let row: Style = Style::plain().bg(styles::ops_table_bg(*theme)).fg(theme.foreground);
    let dim: Style = Style::plain().bg(styles::ops_table_bg(*theme)).fg(theme.border).dim();
    let bare: String = text::trim_start(line);
    let trimmed: &str = bare.as_str();
    let label: String = match text::split_once(trimmed, ":") {
        Some(parts) => text::trim(parts.0.as_str()),
        None => String::new(),
    };
    assert(label@.len() == 0 ==> label@ =~= Seq::<char>::empty());
    if is_swarm_label(label.as_str()) {
        return segments_line(line, false, theme);
    }
    if is_count_label(label.as_str()) {
        return segments_line(line, true, theme);
    }
    if let Some(rest) = text::strip_prefix(trimmed, "Gate:") {
        let value: String = text::trim(rest.as_str());
        let behind: String = text::tail_of(
            text::trim_start(rest.as_str()).as_str(),
            text::length(value.as_str()),
        );
        let spans: Vec<Span> = vec![
            style::styled(text::lead_of(line), row),
            style::span("Gate:", dim),
            style::styled(text::lead_of(rest.as_str()), row),
            style::styled(value, row.fg(theme.title_focused)),
        ];
        assert(style::pieces(spans@) =~= seq![
            style::piece(text::lead(line@), row),
            style::piece("Gate:"@, dim),
            style::piece(text::lead(rest@), row),
            style::piece(text::trimmed(rest@), row.fg(theme.title_focused)),
        ]);
        let r: Line = Line { spans: styles::push_rest(spans, behind, row) };
        assert(r@ =~= styled_line(line@, usable as int, ascii, *theme));
        return r;
    }
    if text::starts_with(trimmed, "Swarm DAG") || text::starts_with(trimmed, "Gate bundle:") {
        return style::single(text::copy(line), styles::plain_text(*theme));
    }
    let chars: Vec<char> = text::chars_of(line);
    if chars.len() > 0 && chars[0] == '─' {
        return style::single(text::copy(line), dim);
    }
    let gate_widths: Vec<usize> = dag::dag_gate_widths(total);
    let task_widths: Vec<usize> = dag::dag_task_widths(total);
    if text::starts_with(trimmed, "ID") {
        return three_cells_line(line, &task_widths, dim, dim, dim, dim, dim);
    }
    if text::starts_with(trimmed, "GATE") {
        return three_cells_line(line, &gate_widths, dim, dim, dim, dim, dim);
    }
    let gate_cols: Vec<String> = columns(line, &gate_widths);
    assert(text::texts(gate_cols@)[1] == gate_cols@[1]@);
    assert(text::texts(gate_cols@)[0] == gate_cols@[0]@);
    let status: String = text::trim(gate_cols[1].as_str());
    if text::str_eq(status.as_str(), "PENDING") || text::str_eq(status.as_str(), "PASS")
        || text::str_eq(status.as_str(), "FAIL") {
        let unnamed: bool = text::is_blank(gate_cols[0].as_str());
        return three_cells_line(
            line,
            &gate_widths,
            row,
            row.fg(theme.title_focused),
            dag_gate_status_style(status.as_str(), row, theme),
            if unnamed {
                row.dim()
            } else {
                row
            },
            row,
        );
    }
    if notices(trimmed) {
        return style::single(text::copy(line), dim);
    }
    let cols: Vec<String> = columns(line, &task_widths);
    assert(forall|k: int| 0 <= k < 3 ==> text::texts(cols@)[k] == (#[trigger] cols@[k])@);
    let third: String = text::trim_start(cols[2].as_str());
    let arrow: String = glyphs::one(glyphs::arrow_glyph(ascii));
    let details: bool = text::is_blank(cols[0].as_str()) && text::is_blank(cols[1].as_str())
        && text::starts_with(third.as_str(), arrow.as_str());
    let state: String = text::trim(cols[1].as_str());
    let state_look: Style = dag_state_style(state.as_str(), row, theme);
    three_cells_line(
        line,
        &task_widths,
        row.fg(theme.border).dim(),
        if details {
            dim
        } else {
            row.fg(theme.title_focused)
        },
        if details {
            dim
        } else {
            state_look
        },
        if details {
            row.dim()
        } else {
            row
        },
        row,
    )
}

proof fn cells_keep_text(
    line: Seq<char>,
    total: int,
    marker: Style,
    a: Style,
    b: Style,
    c: Style,
    space: Style,
)
    ensures
        style::plain_text(three_cells(line, dag::task_widths(total), marker, a, b, c, space))
            == line,
        style::plain_text(three_cells(line, dag::gate_widths(total), marker, a, b, c, space))
            == line,
{
    fit::every_column_has_a_width(total, seq![9, 7, 10], seq![10, 7, 24], 2);
    fit::every_column_has_a_width(total, seq![4, 6, 10], seq![10, 8, 24], 2);
    styles::rows_keep_text(line, dag::task_widths(total), marker, seq![a, b, c], space);
    styles::rows_keep_text(line, dag::gate_widths(total), marker, seq![a, b, c], space);
}

proof fn segments_keep_text(line: Seq<char>, counts: bool, theme: Theme)
    ensures
        style::plain_text(segment_pieces(line, counts, theme)) == line,
{
    let first: Piece = style::piece(text::lead(line), row_style(theme));
    style::one_piece_text(first);
    text::lead_and_rest(line);
    segments::pieces_keep_text(
        seq![first],
        text::trimmed_start(line),
        dim_style(theme),
        row_style(theme),
        value_look(counts, theme),
    );
}

proof fn gate_keeps_text(line: Seq<char>, rest: Seq<char>, a: Style, b: Style, c: Style)
    requires
        text::after_prefix(text::trimmed_start(line), "Gate:"@) == Some(rest),
    ensures
        ({
            let value: Seq<char> = text::trimmed(rest);
            style::plain_text(
                styles::with_rest(
                    seq![
                        style::piece(text::lead(line), a),
                        style::piece("Gate:"@, b),
                        style::piece(text::lead(rest), a),
                        style::piece(value, c),
                    ],
                    text::tail(text::trimmed_start(rest), value.len() as int),
                    a,
                ),
            ) == line
        }),
{
    let trimmed: Seq<char> = text::trimmed_start(line);
    let bare: Seq<char> = text::trimmed_start(rest);
    let value: Seq<char> = text::trimmed(rest);
    let behind: Seq<char> = text::tail(bare, value.len() as int);
    let p: Seq<Piece> = seq![
        style::piece(text::lead(line), a),
        style::piece("Gate:"@, b),
        style::piece(text::lead(rest), a),
        style::piece(value, c),
    ];
    style::one_piece_text(p[0]);
    style::plain_text_push(seq![p[0]], p[1]);
    style::plain_text_push(seq![p[0]].push(p[1]), p[2]);
    style::plain_text_push(seq![p[0]].push(p[1]).push(p[2]), p[3]);
    assert(p =~= seq![p[0]].push(p[1]).push(p[2]).push(p[3]));
    styles::rest_keeps_text(p, behind, a);
    text::lead_and_rest(line);
    text::lead_and_rest(rest);
    text::trimmed_end_is_head(bare);
    text::head_tail(bare, value.len() as int);
    assert("Gate:"@ + rest =~= trimmed);
    assert(text::lead(rest) + (value + behind) == rest);
    assert(text::lead(line) + "Gate:"@ + text::lead(rest) + value + behind =~= text::lead(line) + (
    "Gate:"@ + (text::lead(rest) + (value + behind))));
}

/// Every line of the tab is drawn with its own text.
pub proof fn drawn_lines_keep_text(line: Seq<char>, usable: int, ascii: bool, theme: Theme)
    ensures
        style::plain_text(styled_line(line, usable, ascii, theme)) == line,
{
    let total: int = text::monus(usable, 1);
    let row: Style = row_style(theme);
    let dim: Style = dim_style(theme);
    let trimmed: Seq<char> = text::trimmed_start(line);
    segments_keep_text(line, false, theme);
    segments_keep_text(line, true, theme);
    if text::starts(trimmed, "Gate:"@) {
        let rest: Seq<char> = text::after_prefix(trimmed, "Gate:"@)->0;
        gate_keeps_text(line, rest, row, dim, row.fg(theme.title_focused));
    }
    style::one_piece_text(style::piece(line, styles::plain_text(theme)));
    style::one_piece_text(style::piece(line, dim));
    cells_keep_text(line, total, dim, dim, dim, dim, dim);
    let gate: Seq<Seq<char>> = fit::columns_of(line, dag::gate_widths(total));
    cells_keep_text(
        line,
        total,
        row,
        row.fg(theme.title_focused),
        gate_style(gate_status(line, usable), row, theme),
        if text::trimmed(gate[0]).len() == 0 {
            row.dim()
        } else {
            row
        },
        row,
    );
    let cols: Seq<Seq<char>> = fit::columns_of(line, dag::task_widths(total));
    let details: bool = text::trimmed(cols[0]).len() == 0 && text::trimmed(cols[1]).len() == 0
        && text::starts(text::trimmed_start(cols[2]), seq![glyphs::arrow_glyph(ascii)]);
    cells_keep_text(
        line,
        total,
        row.fg(theme.border).dim(),
        if details {
            dim
        } else {
            row.fg(theme.title_focused)
        },
        if details {
            dim
        } else {
            state_style(text::trimmed(cols[1]), row, theme)
        },
        if details {
            row.dim()
        } else {
            row
        },
        row,
    );
}

} // verus!
