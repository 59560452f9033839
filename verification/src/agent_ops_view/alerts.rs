//! The table of alerts.

use vstd::prelude::*;

use crate::agent_ops_view::glyphs;
use crate::agent_ops_view::roster_lines;
use crate::agent_ops_view::styles;
use crate::blocks;
use crate::fit;
use crate::state::Alert;
use crate::state::AppState;
use crate::style;
use crate::style::Line;
use crate::style::Piece;
use crate::style::Style;
use crate::style::Theme;
use crate::table_cells;
use crate::text;
use crate::wrap;

verus! {

/// A line of the table's body: its alert and which line of the message it shows.
#[derive(Clone, Copy, Debug, PartialEq, Eq, Structural)]
pub struct AlertBodyMeta {
    pub alert_idx: usize,
    pub wrap_row: usize,
}

/// The widths of the columns: the message takes what is left over.
pub open spec fn alert_widths(width: int) -> Seq<usize> {
    fit::allocated(text::monus(width, 1), seq![4, 4, 5, 12], seq![5, 8, 10, 26], 3)
}

pub fn alert_column_widths(width: usize) -> (r: Vec<usize>)
    ensures
        r@ == alert_widths(width as int),
        r@.len() == 4,
{
    let mins: Vec<usize> = vec![4, 4, 5, 12];
    let prefs: Vec<usize> = vec![5, 8, 10, 26];
    proof {
        fit::sums_of_few(4, 4, 5, 12, 0);
        fit::sums_of_few(5, 8, 10, 26, 0);
        assert(mins@ =~= seq![4usize, 4, 5, 12]);
        assert(prefs@ =~= seq![5usize, 8, 10, 26]);
    }
    fit::allocate_columns(text::minus(width, 1), &mins, &prefs, 3)
}

/// The heights of the alerts: the lines of their messages in a column of `msg_w` characters.
pub open spec fn heights(alerts: Seq<Alert>, msg_w: int) -> Seq<nat> {
    Seq::new(alerts.len(), |i: int| wrap::cell_lines(alerts[i].message@, msg_w).len())
}

/// The rows of the table's body at a given width.
pub open spec fn body_rows(st: AppState, width: int) -> Seq<(int, int)> {
    blocks::rows(heights(st.agents.alerts@, alert_widths(width)[3] as int))
}

pub fn alert_body_meta(st: &AppState, width: usize, body_line: usize) -> (r: Option<AlertBodyMeta>)
    ensures
        ({
            let rows: Seq<(int, int)> = body_rows(*st, text::max_int(width as int, 32));
            match r {
                Some(meta) => body_line < rows.len() && rows[body_line as int] == (
                    meta.alert_idx as int,
                    meta.wrap_row as int,
                ) && meta.alert_idx < st.agents.alerts@.len(),
                None => body_line >= rows.len(),
            }
        }),
{
    let alerts: &Vec<Alert> = &st.agents.alerts;
    let widths: Vec<usize> = alert_column_widths(text::max_of(width, 32));
    let msg_w: usize = widths[3];
    let ghost high: Seq<nat> = heights(alerts@, msg_w as int);
    let mut cursor: usize = 0;
    let mut i: usize = 0;
    while i < alerts.len()
        invariant
            i <= alerts@.len(),
            alerts@ == st.agents.alerts@,
            high == heights(alerts@, msg_w as int),
            body_rows(*st, text::max_int(width as int, 32)) == blocks::rows(high),
            cursor == blocks::rows_upto(high, i as int).len(),
            cursor <= body_line,
        decreases alerts@.len() - i,
    {
        let chunks: Vec<String> = wrap::wrap_cell_text(alerts[i].message.as_str(), msg_w);
        let rows: usize = chunks.len();
        assert(text::texts(chunks@).len() == rows);
        let row: usize = body_line - cursor;
        if row < rows {
            proof {
                blocks::row_in_block(high, i as int, row as int);
            }
            return Some(AlertBodyMeta { alert_idx: i, wrap_row: row });
        }
        cursor = cursor + rows;
        i += 1;
    }
    None
}

/// Which alert a line of the table's body belongs to.
pub fn alert_index_for_body_line(st: &AppState, width: usize, body_line: usize) -> (r: Option<usize>)
    ensures
        ({
            let rows: Seq<(int, int)> = body_rows(*st, text::max_int(width as int, 32));
            match r {
                Some(k) => body_line < rows.len() && rows[body_line as int].0 == k && k
                    < st.agents.alerts@.len(),
                None => body_line >= rows.len(),
            }
        }),
{
    match alert_body_meta(st, width, body_line) {
        Some(meta) => Some(meta.alert_idx),
        None => None,
    }
}

/// Line `r` of alert `a`.
pub open spec fn block_line(st: AppState, w: Seq<usize>, a: int, r: int) -> Seq<char> {
    let alert: Alert = st.agents.alerts@[a];
    let chunk: Seq<char> = wrap::cell_lines(alert.message@, w[3] as int)[r];
    if r == 0 {
        table_cells::row(
            seq![
                if a == st.agents.alert_selected {
                    glyphs::cursor_glyph(st.ascii_fallback)
                } else {
                    glyphs::arrow_glyph(st.ascii_fallback)
                },
            ],
            w,
            seq![alert.severity_label@, alert.at@, alert.source@, chunk],
        )
    } else {
        table_cells::row(seq![' '], w, seq![""@, ""@, ""@, chunk])
    }
}

/// The two lines above the alerts.
pub open spec fn alert_header(width: int) -> Seq<Seq<char>> {
    seq![
        table_cells::row(
            " "@,
            alert_widths(width),
            seq!["SEV"@, "TIME"@, "SOURCE"@, "MESSAGE"@],
        ),
        roster_lines::rule(width),
    ]
}

/// All lines of the table.
pub open spec fn all_lines(st: AppState, width: int) -> Seq<Seq<char>> {
    alert_header(width) + (if st.agents.alerts@.len() == 0 {
        seq![" No alerts."@]
    } else {
        blocks::drawn(
            body_rows(st, width),
            |a: int, r: int| block_line(st, alert_widths(width), a, r),
        )
    })
}

fn draw_row(st: &AppState, w: &Vec<usize>, i: usize, row: usize, chunk: &str) -> (r: String)
    requires
        i < st.agents.alerts@.len(),
        w@.len() == 4,
        chunk@ == wrap::cell_lines(st.agents.alerts@[i as int].message@, w@[3] as int)[row as int],
    ensures
        r@ == block_line(*st, w@, i as int, row as int),
{
    let alert: &Alert = &st.agents.alerts[i];
    if row == 0 {
        let marker: char = if i == st.agents.alert_selected {
            glyphs::cursor_glyph(st.ascii_fallback)
        } else {
            glyphs::arrow_glyph(st.ascii_fallback)
        };
        let cells: Vec<&str> = vec![
            alert.severity_label.as_str(),
            alert.at.as_str(),
            alert.source.as_str(),
            chunk,
        ];
        assert(table_cells::strs(cells@) =~= seq![
            alert.severity_label@,
            alert.at@,
            alert.source@,
            chunk@,
        ]);
        table_cells::row_of(glyphs::one(marker).as_str(), w, &cells)
    } else {
        let cells: Vec<&str> = vec!["", "", "", chunk];
        assert(table_cells::strs(cells@) =~= seq![""@, ""@, ""@, chunk@]);
        table_cells::row_of(glyphs::one(' ').as_str(), w, &cells)
    }
}

pub fn alert_lines(st: &AppState, width: usize) -> (r: Vec<String>)
    ensures
        text::texts(r@) == all_lines(*st, width as int),
{
    broadcast use text::group_texts;

    let w: Vec<usize> = alert_column_widths(width);
    let titles: Vec<&str> = vec!["SEV", "TIME", "SOURCE", "MESSAGE"];
    assert(table_cells::strs(titles@) =~= seq!["SEV"@, "TIME"@, "SOURCE"@, "MESSAGE"@]);
    let mut out: Vec<String> = Vec::new();
    out.push(table_cells::row_of(" ", &w, &titles));
    out.push(roster_lines::rule_line(width));
    assert(text::texts(out@) =~= alert_header(width as int));
    if st.agents.alerts.len() == 0 {
        out.push(text::copy(" No alerts."));
        assert(text::texts(out@) =~= all_lines(*st, width as int));
        return out;
    }
    let ghost high: Seq<nat> = heights(st.agents.alerts@, w@[3] as int);
    let ghost show = |a: int, r: int| block_line(*st, w@, a, r);
    let ghost head: Seq<Seq<char>> = alert_header(width as int);
    let mut i: usize = 0;
    assert(head + blocks::drawn(blocks::rows_upto(high, 0), show) =~= head);
    while i < st.agents.alerts.len()
        invariant
            i <= st.agents.alerts@.len(),
            w@.len() == 4,
            high == heights(st.agents.alerts@, w@[3] as int),
            show == (|a: int, r: int| block_line(*st, w@, a, r)),
            text::texts(out@) == head + blocks::drawn(blocks::rows_upto(high, i as int), show),
        decreases st.agents.alerts@.len() - i,
    {
        let ghost before: Seq<Seq<char>> = text::texts(out@);
        let chunks: Vec<String> = wrap::wrap_cell_text(st.agents.alerts[i].message.as_str(), w[3]);
        let mut j: usize = 0;
        proof {
            blocks::one_row_more(before, show, i as int, 0);
        }
        while j < chunks.len()
            invariant
                j <= chunks@.len(),
                i < st.agents.alerts@.len(),
                w@.len() == 4,
                text::texts(chunks@) == wrap::cell_lines(
                    st.agents.alerts@[i as int].message@,
                    w@[3] as int,
                ),
                show == (|a: int, r: int| block_line(*st, w@, a, r)),
                text::texts(out@) == before + blocks::block(show, i as int, j as nat),
            decreases chunks@.len() - j,
        {
            assert(chunks@[j as int]@ == text::texts(chunks@)[j as int]);
            let line: String = draw_row(st, &w, i, j, chunks[j].as_str());
            out.push(line);
            proof {
                blocks::one_row_more(before, show, i as int, j as nat);
                assert(line@ == show(i as int, j as int));
            }
            j += 1;
        }
        proof {
            assert(text::texts(chunks@).len() == high[i as int]);
            blocks::drawn_next(high, i as int, show);
        }
        i += 1;
    }
    assert(text::texts(out@) =~= all_lines(*st, width as int));
    out
}

/// A click matches what is drawn: line `2 + i` of the table is the line of the alert and of its
/// message that `alert_body_meta` names for body line `i`.
pub proof fn alerts_match_lines(st: AppState, width: int, i: int)
    requires
        st.agents.alerts@.len() > 0,
        0 <= i < body_rows(st, width).len(),
    ensures
        all_lines(st, width).len() == 2 + body_rows(st, width).len(),
        ({
            let at: (int, int) = body_rows(st, width)[i];
            all_lines(st, width)[2 + i] == block_line(st, alert_widths(width), at.0, at.1)
        }),
{
}

/// The line that shows line `r` of alert `a`.
pub open spec fn row_pieces(
    st: AppState,
    a: int,
    r: int,
    line: Seq<char>,
    usable: int,
    theme: Theme,
) -> Seq<Piece> {
    let sel: bool = a == st.agents.alert_selected;
    let on = |s: Style| styles::selected_row_style(s, sel, theme);
    let faint: Style = on(styles::muted(theme));
    styles::table_row(
        line,
        alert_widths(usable),
        if sel {
            on(Style::plain().fg(theme.accent))
        } else {
            styles::muted(theme)
        },
        seq![
            if r == 0 {
                on(styles::alert_severity_style(st.agents.alerts@[a].severity, theme))
            } else {
                faint
            },
            faint,
            if r == 0 {
                on(Style::plain().fg(theme.title))
            } else {
                faint
            },
            on(styles::plain_text(theme)),
        ],
        on(Style::plain()),
    )
}

/// Line `line_idx` of the table, whose text is `line`.
pub open spec fn styled_line(
    st: AppState,
    line_idx: int,
    line: Seq<char>,
    usable: int,
    theme: Theme,
) -> Seq<Piece> {
    let rows: Seq<(int, int)> = body_rows(st, text::max_int(usable, 32));
    let body: int = text::monus(line_idx, 2);
    if st.agents.alerts@.len() == 0 {
        seq![style::piece(line, styles::muted(theme))]
    } else if body < rows.len() {
        row_pieces(st, rows[body].0, rows[body].1, line, usable, theme)
    } else {
        seq![style::piece(line, styles::plain_text(theme))]
    }
}

pub fn alert_styled_line(
    st: &AppState,
    line_idx: usize,
    line: &str,
    usable: usize,
    theme: &Theme,
) -> (r: Line)
    ensures
        r@ == styled_line(*st, line_idx as int, line@, usable as int, *theme),
{
    if st.agents.alerts.len() == 0 {
        return style::single(text::copy(line), styles::muted(*theme));
    }
    match alert_body_meta(st, usable, text::minus(line_idx, 2)) {
        Some(meta) => {
            let w: Vec<usize> = alert_column_widths(usable);
            let sel: bool = meta.alert_idx == st.agents.alert_selected;
            let first: bool = meta.wrap_row == 0;
            let faint: Style = styles::selected_row_style(styles::muted(*theme), sel, *theme);
            let marker_style: Style = if sel {
                styles::selected_row_style(Style::plain().fg(theme.accent), sel, *theme)
            } else {
                styles::muted(*theme)
            };
            let severity: Style = if first {
                styles::selected_row_style(
                    styles::alert_severity_style(
                        st.agents.alerts[meta.alert_idx].severity,
                        *theme,
                    ),
                    sel,
                    *theme,
                )
            } else {
                faint
            };
            let source: Style = if first {
                styles::selected_row_style(Style::plain().fg(theme.title), sel, *theme)
            } else {
                faint
            };
            let message: Style = styles::selected_row_style(
                styles::plain_text(*theme),
                sel,
                *theme,
            );
            let looks: Vec<Style> = vec![severity, faint, source, message];
            assert(looks@ =~= seq![severity, faint, source, message]);
            let space: Style = styles::selected_row_style(Style::plain(), sel, *theme);
            styles::styled_row(line, &w, marker_style, &looks, space)
        },
        None => style::single(text::copy(line), styles::plain_text(*theme)),
    }
}

/// Every line of the table is drawn with its own text.
pub proof fn drawn_lines_keep_text(
    st: AppState,
    line_idx: int,
    line: Seq<char>,
    usable: int,
    theme: Theme,
)
    ensures
        style::plain_text(styled_line(st, line_idx, line, usable, theme)) == line,
{
    let rows: Seq<(int, int)> = body_rows(st, text::max_int(usable, 32));
    let body: int = text::monus(line_idx, 2);
    let w: Seq<usize> = alert_widths(usable);
    fit::every_column_has_a_width(
        text::monus(usable, 1),
        seq![4, 4, 5, 12],
        seq![5, 8, 10, 26],
        3,
    );
    style::one_piece_text(style::piece(line, styles::muted(theme)));
    style::one_piece_text(style::piece(line, styles::plain_text(theme)));
    if st.agents.alerts@.len() > 0 && body < rows.len() {
        let a: int = rows[body].0;
        let r: int = rows[body].1;
        let sel: bool = a == st.agents.alert_selected;
        let on = |s: Style| styles::selected_row_style(s, sel, theme);
        let faint: Style = on(styles::muted(theme));
        styles::rows_keep_text(
            line,
            w,
            if sel {
                on(Style::plain().fg(theme.accent))
            } else {
                styles::muted(theme)
            },
            seq![
                if r == 0 {
                    on(styles::alert_severity_style(st.agents.alerts@[a].severity, theme))
                } else {
                    faint
                },
                faint,
                if r == 0 {
                    on(Style::plain().fg(theme.title))
                } else {
                    faint
                },
                on(styles::plain_text(theme)),
            ],
            on(Style::plain()),
        );
    }
}

} // verus!
