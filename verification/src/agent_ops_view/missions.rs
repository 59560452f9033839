//! The table of missions.

use vstd::prelude::*;

use crate::agent_ops_view::glyphs;
use crate::agent_ops_view::roster_lines;
use crate::agent_ops_view::styles;
use crate::blocks;
use crate::clone_labels;
use crate::fit;
use crate::state::AppState;
use crate::state::Mission;
use crate::style;
use crate::style::Line;
use crate::style::Piece;
use crate::style::Span;
use crate::style::Style;
use crate::style::Theme;
use crate::table_cells;
use crate::text;

verus! {

/// A line of the table's body: its mission and, where it names one, the agent.
#[derive(Clone, Copy, Debug, PartialEq, Eq, Structural)]
pub struct MissionBodyMeta {
    pub mission_idx: usize,
    pub agent_row: Option<usize>,
}

/// The widths of the columns: the agents take what is left over.
pub open spec fn mission_widths(width: int) -> Seq<usize> {
    fit::allocated(
        text::monus(width, 1),
        seq![6, 6, 3, 6, 8],
        seq![12, 8, 5, 12, 18],
        4,
    )
}

pub fn mission_column_widths(width: usize) -> (r: Vec<usize>)
    ensures
        r@ == mission_widths(width as int),
        r@.len() == 5,
{
    let mins: Vec<usize> = vec![6, 6, 3, 6, 8];
    let prefs: Vec<usize> = vec![12, 8, 5, 12, 18];
    proof {
        fit::sums_of_few(6, 6, 3, 6, 8);
        fit::sums_of_few(12, 8, 5, 12, 18);
        assert(mins@ =~= seq![6usize, 6, 3, 6, 8]);
        assert(prefs@ =~= seq![12usize, 8, 5, 12, 18]);
    }
    fit::allocate_columns(text::minus(width, 1), &mins, &prefs, 4)
}

/// How many agents a mission lists; one line is kept where there are none.
pub open spec fn agent_lines(mission: Mission) -> nat {
    text::max_int(mission.assigned_agents@.len() as int, 1) as nat
}

/// The heights of the missions: their agents between two borders.
pub open spec fn heights(missions: Seq<Mission>) -> Seq<nat> {
    Seq::new(missions.len(), |i: int| agent_lines(missions[i]) + 2)
}

/// What a row of a mission's block stands for.
pub open spec fn meta_of(missions: Seq<Mission>, at: (int, int)) -> MissionBodyMeta {
    MissionBodyMeta {
        mission_idx: at.0 as usize,
        agent_row: if at.1 == 0 || at.1 == agent_lines(missions[at.0]) + 1 {
            None
        } else {
            Some((at.1 - 1) as usize)
        },
    }
}

pub fn mission_body_meta(st: &AppState, body_line: usize) -> (r: Option<MissionBodyMeta>)
    ensures
        ({
            let missions: Seq<Mission> = st.agents.missions@;
            let rows: Seq<(int, int)> = blocks::rows(heights(missions));
            r == (if body_line < rows.len() {
                Some(meta_of(missions, rows[body_line as int]))
            } else {
                None
            })
        }),
{
    let missions: &Vec<Mission> = &st.agents.missions;
    let ghost high: Seq<nat> = heights(missions@);
    let mut cursor: usize = 0;
    let mut i: usize = 0;
    while i < missions.len()
        invariant
            i <= missions@.len(),
            missions@ == st.agents.missions@,
            high == heights(missions@),
            cursor == blocks::rows_upto(high, i as int).len(),
            cursor <= body_line,
        decreases missions@.len() - i,
    {
        let lines: usize = text::max_of(missions[i].assigned_agents.len(), 1);
        let row: usize = body_line - cursor;
        assert(high[i as int] == lines + 2);
        if row < lines || row - lines < 2 {
            proof {
                blocks::row_in_block(high, i as int, row as int);
            }
            let agent_row: Option<usize> = if row == 0 || (row > lines && row - lines == 1) {
                None
            } else {
                Some(row - 1)
            };
            return Some(MissionBodyMeta { mission_idx: i, agent_row });
        }
        assert(blocks::rows_upto(high, i + 1).len() == cursor + lines + 2);
        cursor = cursor + lines + 2;
        i += 1;
    }
    None
}

pub fn mission_index_for_body_line(st: &AppState, body_line: usize) -> (r: Option<usize>)
    ensures
        match r {
            Some(k) => body_line < blocks::rows(heights(st.agents.missions@)).len() && k
                == blocks::rows(heights(st.agents.missions@))[body_line as int].0,
            None => body_line >= blocks::rows(heights(st.agents.missions@)).len(),
        },
{
    match mission_body_meta(st, body_line) {
        Some(meta) => {
            proof {
                let h: Seq<nat> = heights(st.agents.missions@);
                blocks::rows_are_in_blocks(h, h.len() as int, body_line as int);
            }
            let total: usize = st.agents.missions.len();
            assert(blocks::rows(heights(st.agents.missions@))[body_line as int].0 < total);
            Some(meta.mission_idx)
        },
        None => None,
    }
}

/// The frame around the agents of a mission.
pub open spec fn pane(left: char, middle: Seq<char>, right: char, width: int) -> Seq<char> {
    if width <= 0 {
        Seq::empty()
    } else if width == 1 {
        "│"@
    } else {
        seq![left] + middle + seq![right]
    }
}

fn pane_of(left: char, middle: &str, right: char, width: usize) -> (r: String)
    ensures
        r@ == pane(left, middle@, right, width as int),
{
    if width == 0 {
        return String::new();
    }
    if width == 1 {
        return text::copy("│");
    }
    text::cat3(glyphs::one(left).as_str(), middle, glyphs::one(right).as_str())
}

pub open spec fn inner_width(width: int) -> int {
    text::monus(width, 2)
}

pub fn agent_pane_inner_width(col_width: usize) -> (r: usize)
    ensures
        r == inner_width(col_width as int),
{
    text::minus(col_width, 2)
}

pub open spec fn pane_top(width: int) -> Seq<char> {
    pane('┌', text::fill('─', inner_width(width) as nat), '┐', width)
}

pub fn agent_pane_top(col_width: usize) -> (r: String)
    ensures
        r@ == pane_top(col_width as int),
{
    let line: String = text::filled('─', agent_pane_inner_width(col_width));
    pane_of('┌', line.as_str(), '┐', col_width)
}

pub open spec fn pane_bottom(width: int) -> Seq<char> {
    pane('└', text::fill('─', inner_width(width) as nat), '┘', width)
}

pub fn agent_pane_bottom(col_width: usize) -> (r: String)
    ensures
        r@ == pane_bottom(col_width as int),
{
    let line: String = text::filled('─', agent_pane_inner_width(col_width));
    pane_of('└', line.as_str(), '┘', col_width)
}

pub open spec fn pane_mid(s: Seq<char>, width: int) -> Seq<char> {
    pane('│', fit::left(s, inner_width(width)), '│', width)
}

pub fn agent_pane_mid(s: &str, col_width: usize) -> (r: String)
    ensures
        r@ == pane_mid(s@, col_width as int),
{
    let cell: String = fit::fit_left(s, agent_pane_inner_width(col_width));
    pane_of('│', cell.as_str(), '│', col_width)
}

/// A frame is as wide as its column.
pub proof fn panes_have_width(s: Seq<char>, width: int)
    requires
        width >= 0,
    ensures
        pane_top(width).len() == width,
        pane_mid(s, width).len() == width,
        pane_bottom(width).len() == width,
{
    reveal_strlit("│");
    fit::fitted_has_width(s, inner_width(width), false);
}

/// A line of the table: four cells, and the fifth as it is.
pub open spec fn mission_row(
    w: Seq<usize>,
    marker: Seq<char>,
    cells: Seq<Seq<char>>,
    agents: Seq<char>,
) -> Seq<char> {
    table_cells::row(marker, w.take(4), cells) + " "@ + agents
}

/// The agent that row `row` of a mission names.
pub open spec fn agent_label(st: AppState, mission: Mission, row: int) -> Seq<char> {
    if 0 <= row < mission.assigned_agents@.len() {
        let id: Seq<char> = mission.assigned_agents@[row]@;
        match clone_labels::display_label(st.agents.role_names@, id, None) {
            Some(label) => label,
            None => id,
        }
    } else {
        "--"@
    }
}

fn label_of(st: &AppState, mission: &Mission, row: usize) -> (r: String)
    ensures
        r@ == agent_label(*st, *mission, row as int),
{
    if row < mission.assigned_agents.len() {
        let id: &str = mission.assigned_agents[row].as_str();
        match clone_labels::swarm_clone_display_label(&st.agents.role_names, id, None) {
            Some(label) => label,
            None => text::copy(id),
        }
    } else {
        text::copy("--")
    }
}

/// Row `r` of mission `m`.
pub open spec fn block_line(st: AppState, w: Seq<usize>, m: int, r: int) -> Seq<char> {
    let mission: Mission = st.agents.missions@[m];
    let blank: Seq<Seq<char>> = seq![""@, ""@, ""@, ""@];
    if r == 0 {
        mission_row(w, " "@, blank, pane_top(w[4] as int))
    } else if r == agent_lines(mission) + 1 {
        mission_row(w, " "@, blank, pane_bottom(w[4] as int))
    } else {
        mission_row(
            w,
            seq![
                if m == st.agents.mission_selected && r == 1 {
                    glyphs::cursor_glyph(st.ascii_fallback)
                } else {
                    glyphs::arrow_glyph(st.ascii_fallback)
                },
            ],
            if r == 1 {
                seq![
                    mission.id@,
                    mission.phase_label@,
                    if mission.swarm {
                        "yes"@
                    } else {
                        "no"@
                    },
                    mission.status@,
                ]
            } else {
                blank
            },
            pane_mid(agent_label(st, mission, r - 1), w[4] as int),
        )
    }
}

/// The two lines above the missions.
pub open spec fn mission_header(width: int) -> Seq<Seq<char>> {
    seq![
        table_cells::row(
            " "@,
            mission_widths(width),
            seq!["MISSION"@, "PHASE"@, "SWM"@, "STATUS"@, "AGENTS"@],
        ),
        roster_lines::rule(width),
    ]
}

/// All lines of the table.
pub open spec fn all_lines(st: AppState, width: int) -> Seq<Seq<char>> {
    let w: Seq<usize> = mission_widths(width);
    mission_header(width) + (if st.agents.missions@.len() == 0 {
        seq![" No missions yet. Press n to create one."@]
    } else {
        blocks::drawn(
            blocks::rows(heights(st.agents.missions@)),
            |m: int, r: int| block_line(st, w, m, r),
        )
    })
}

fn draw_row(w: &Vec<usize>, marker: &str, cells: &Vec<&str>, agents: &str) -> (r: String)
    requires
        w@.len() == 5,
        cells@.len() == 4,
    ensures
        r@ == mission_row(w@, marker@, table_cells::strs(cells@), agents@),
{
    let four: Vec<usize> = vec![w[0], w[1], w[2], w[3]];
    assert(four@ =~= w@.take(4));
    let front: String = table_cells::row_of(marker, &four, cells);
    text::cat3(front.as_str(), " ", agents)
}

/// The line of agent `j` of mission `i`.
fn draw_agent(st: &AppState, w: &Vec<usize>, i: usize, j: usize, blank: &Vec<&str>) -> (r: String)
    requires
        i < st.agents.missions@.len(),
        j < agent_lines(st.agents.missions@[i as int]),
        w@.len() == 5,
        blank@.len() == 4,
        table_cells::strs(blank@) == seq![""@, ""@, ""@, ""@],
    ensures
        r@ == block_line(*st, w@, i as int, j + 1),
{
    let mission: &Mission = &st.agents.missions[i];
    let marker: char = if i == st.agents.mission_selected && j == 0 {
        glyphs::cursor_glyph(st.ascii_fallback)
    } else {
        glyphs::arrow_glyph(st.ascii_fallback)
    };
    let label: String = label_of(st, mission, j);
    let agents: String = agent_pane_mid(label.as_str(), w[4]);
    if j == 0 {
        let swarm: &str = if mission.swarm {
            "yes"
        } else {
            "no"
        };
        let cells: Vec<&str> = vec![
            mission.id.as_str(),
            mission.phase_label.as_str(),
            swarm,
            mission.status.as_str(),
        ];
        assert(table_cells::strs(cells@) =~= seq![
            mission.id@,
            mission.phase_label@,
            swarm@,
            mission.status@,
        ]);
        draw_row(w, glyphs::one(marker).as_str(), &cells, agents.as_str())
    } else {
        draw_row(w, glyphs::one(marker).as_str(), blank, agents.as_str())
    }
}

pub fn mission_lines(st: &AppState, width: usize) -> (r: Vec<String>)
    ensures
        text::texts(r@) == all_lines(*st, width as int),
{
    broadcast use text::group_texts;

    let w: Vec<usize> = mission_column_widths(width);
    let titles: Vec<&str> = vec!["MISSION", "PHASE", "SWM", "STATUS", "AGENTS"];
    assert(table_cells::strs(titles@) =~= seq![
        "MISSION"@,
        "PHASE"@,
        "SWM"@,
        "STATUS"@,
        "AGENTS"@,
    ]);
    let mut out: Vec<String> = Vec::new();
    out.push(table_cells::row_of(" ", &w, &titles));
    out.push(roster_lines::rule_line(width));
    assert(text::texts(out@) =~= mission_header(width as int));
    if st.agents.missions.len() == 0 {
        out.push(text::copy(" No missions yet. Press n to create one."));
        assert(text::texts(out@) =~= all_lines(*st, width as int));
        return out;
    }
    let blank: Vec<&str> = vec!["", "", "", ""];
    assert(table_cells::strs(blank@) =~= seq![""@, ""@, ""@, ""@]);
    let ghost high: Seq<nat> = heights(st.agents.missions@);
    let ghost show = |m: int, r: int| block_line(*st, w@, m, r);
    let ghost head: Seq<Seq<char>> = mission_header(width as int);
    let mut i: usize = 0;
    assert(head + blocks::drawn(blocks::rows_upto(high, 0), show) =~= head);
    while i < st.agents.missions.len()
        invariant
            i <= st.agents.missions@.len(),
            w@.len() == 5,
            table_cells::strs(blank@) == seq![""@, ""@, ""@, ""@],
            blank@.len() == 4,
            high == heights(st.agents.missions@),
            show == (|m: int, r: int| block_line(*st, w@, m, r)),
            text::texts(out@) == head + blocks::drawn(blocks::rows_upto(high, i as int), show),
        decreases st.agents.missions@.len() - i,
    {
        let mission: &Mission = &st.agents.missions[i];
        let ghost before: Seq<Seq<char>> = text::texts(out@);
        let count: usize = text::max_of(mission.assigned_agents.len(), 1);
        let first: String = draw_row(&w, " ", &blank, agent_pane_top(w[4]).as_str());
        out.push(first);
        proof {
            blocks::one_row_more(before, show, i as int, 0);
            assert(first@ == show(i as int, 0));
        }
        let mut j: usize = 0;
        while j < count
            invariant
                j <= count,
                i < st.agents.missions@.len(),
                w@.len() == 5,
                blank@.len() == 4,
                table_cells::strs(blank@) == seq![""@, ""@, ""@, ""@],
                count == agent_lines(st.agents.missions@[i as int]),
                show == (|m: int, r: int| block_line(*st, w@, m, r)),
                text::texts(out@) == before + blocks::block(show, i as int, (j + 1) as nat),
            decreases count - j,
        {
            let line: String = draw_agent(st, &w, i, j, &blank);
            out.push(line);
            proof {
                blocks::one_row_more(before, show, i as int, (j + 1) as nat);
                assert(line@ == show(i as int, j + 1));
            }
            j += 1;
        }
        let last: String = draw_row(&w, " ", &blank, agent_pane_bottom(w[4]).as_str());
        out.push(last);
        proof {
            blocks::one_row_more(before, show, i as int, (count + 1) as nat);
            assert(last@ == show(i as int, count + 1));
            assert(high[i as int] == count + 2);
            blocks::drawn_next(high, i as int, show);
        }
        i += 1;
    }
    assert(text::texts(out@) =~= all_lines(*st, width as int));
    out
}

/// A click matches what is drawn: line `2 + i` of the table is the line that `mission_body_meta`
/// says of body line `i`.
pub proof fn missions_match_lines(st: AppState, width: int, i: int)
    requires
        st.agents.missions@.len() > 0,
        0 <= i < blocks::rows(heights(st.agents.missions@)).len(),
    ensures
        all_lines(st, width).len() == 2 + blocks::rows(heights(st.agents.missions@)).len(),
        ({
            let at: (int, int) = blocks::rows(heights(st.agents.missions@))[i];
            all_lines(st, width)[2 + i] == block_line(st, mission_widths(width), at.0, at.1)
        }),
{
}

/// Line `line_idx` of the table, whose text is `line`.
pub open spec fn styled_line(
    st: AppState,
    line_idx: int,
    line: Seq<char>,
    usable: int,
    theme: Theme,
) -> Seq<Piece> {
    let missions: Seq<Mission> = st.agents.missions@;
    let rows: Seq<(int, int)> = blocks::rows(heights(missions));
    let body: int = text::monus(line_idx, 2);
    if missions.len() == 0 {
        seq![style::piece(line, styles::muted(theme))]
    } else if body < rows.len() {
        row_pieces(st, meta_of(missions, rows[body]), line, usable, theme)
    } else {
        seq![style::piece(line, styles::plain_text(theme))]
    }
}

/// The first four cells of a mission's line, and the space behind them.
pub open spec fn front_pieces(
    st: AppState,
    meta: MissionBodyMeta,
    line: Seq<char>,
    usable: int,
    theme: Theme,
) -> Seq<Piece> {
    let mission: Mission = st.agents.missions@[meta.mission_idx as int];
    let w: Seq<usize> = mission_widths(usable);
    let sel: bool = meta.mission_idx == st.agents.mission_selected;
    let striped: bool = !sel && meta.mission_idx % 2 == 1;
    let on = |s: Style| styles::striped_row_style(s, sel, striped, theme);
    let faint: Style = on(styles::muted(theme));
    let first: bool = meta.agent_row == Some(0usize);
    styles::with_columns(
        seq![
            style::piece(
                text::head(line, 1),
                if sel && first {
                    on(Style::plain().fg(theme.accent))
                } else {
                    faint
                },
            ),
        ],
        line,
        w,
        if first {
            seq![
                on(styles::plain_text(theme)),
                on(styles::mission_phase_style(mission.phase, theme)),
                on(
                    if mission.swarm {
                        Style::plain().fg(theme.accent)
                    } else {
                        styles::muted(theme)
                    },
                ),
                on(styles::status_style(mission.status@, theme)),
            ]
        } else {
            seq![faint, faint, faint, faint]
        },
        on(Style::plain()),
        0,
        4,
    ).push(style::piece(text::head(styles::behind_columns(line, w, 4), 1), on(Style::plain())))
}

/// A line of a mission: where it names an agent, the frame is set apart from the name.
pub open spec fn row_pieces(
    st: AppState,
    meta: MissionBodyMeta,
    line: Seq<char>,
    usable: int,
    theme: Theme,
) -> Seq<Piece> {
    let mission: Mission = st.agents.missions@[meta.mission_idx as int];
    let w: Seq<usize> = mission_widths(usable);
    let agents: Seq<char> = text::tail(styles::behind_columns(line, w, 4), 1);
    let sel: bool = meta.mission_idx == st.agents.mission_selected;
    let striped: bool = !sel && meta.mission_idx % 2 == 1;
    let on = |s: Style| styles::striped_row_style(s, sel, striped, theme);
    let edge: Style = on(styles::muted(theme));
    let front: Seq<Piece> = front_pieces(st, meta, line, usable, theme);
    match meta.agent_row {
        None => front.push(style::piece(agents, edge)),
        Some(row) => front.push(style::piece(fit::slice(agents, 0, 1), edge)).push(
            style::piece(
                fit::slice(agents, 1, inner_width(w[4] as int)),
                if row < mission.assigned_agents@.len() {
                    on(Style::plain().fg(theme.title_focused))
                } else {
                    edge
                },
            ),
        ).push(style::piece(text::tail(agents, 1 + inner_width(w[4] as int)), edge)),
    }
}

fn row_line(st: &AppState, meta: MissionBodyMeta, line: &str, usable: usize, theme: &Theme) -> (r:
    Line)
    requires
        meta.mission_idx < st.agents.missions@.len(),
    ensures
        r@ == row_pieces(*st, meta, line@, usable as int, *theme),
{
    broadcast use style::group_lines;

    let mission: &Mission = &st.agents.missions[meta.mission_idx];
    let w: Vec<usize> = mission_column_widths(usable);
    let sel: bool = meta.mission_idx == st.agents.mission_selected;
    let striped: bool = !sel && meta.mission_idx % 2 == 1;
    let faint: Style = styles::striped_row_style(styles::muted(*theme), sel, striped, *theme);
    let space: Style = styles::striped_row_style(Style::plain(), sel, striped, *theme);
    let first: bool = match meta.agent_row {
        Some(row) => row == 0,
        None => false,
    };
    let marker_style: Style = if sel && first {
        styles::striped_row_style(Style::plain().fg(theme.accent), sel, striped, *theme)
    } else {
        faint
    };
    let looks: Vec<Style> = if first {
        vec![
            styles::striped_row_style(styles::plain_text(*theme), sel, striped, *theme),
            styles::striped_row_style(
                styles::mission_phase_style(mission.phase, *theme),
                sel,
                striped,
                *theme,
            ),
            styles::striped_row_style(
                if mission.swarm {
                    Style::plain().fg(theme.accent)
                } else {
                    styles::muted(*theme)
                },
                sel,
                striped,
                *theme,
            ),
            styles::striped_row_style(
                styles::mission_status_style(mission.status.as_str(), *theme),
                sel,
                striped,
                *theme,
            ),
        ]
    } else {
        vec![faint, faint, faint, faint]
    };
    let behind: String = styles::text_behind(line, &w, 4);
    let rest: String = text::tail_of(behind.as_str(), 1);
    let agents: &str = rest.as_str();
    let start: Vec<Span> = vec![style::styled(text::head_of(line, 1), marker_style)];
    assert(style::pieces(start@) =~= seq![style::piece(text::head(line@, 1), marker_style)]);
    let mut spans: Vec<Span> = styles::push_columns(start, line, &w, &looks, space, 0, 4);
    spans.push(style::styled(text::head_of(behind.as_str(), 1), space));
    proof {
        let on = |s: Style| styles::striped_row_style(s, sel, striped, *theme);
        if first {
            assert(looks@ =~= seq![
                on(styles::plain_text(*theme)),
                on(styles::mission_phase_style(mission.phase, *theme)),
                on(
                    if mission.swarm {
                        Style::plain().fg(theme.accent)
                    } else {
                        styles::muted(*theme)
                    },
                ),
                on(styles::status_style(mission.status@, *theme)),
            ]);
        } else {
            assert(looks@ =~= seq![faint, faint, faint, faint]);
        }
        assert(style::pieces(spans@) == front_pieces(*st, meta, line@, usable as int, *theme));
    }
    match meta.agent_row {
        None => {
            spans.push(style::span(agents, faint));
        },
        Some(row) => {
            let name: Style = if row < mission.assigned_agents.len() {
                styles::striped_row_style(
                    Style::plain().fg(theme.title_focused),
                    sel,
                    striped,
                    *theme,
                )
            } else {
                faint
            };
            spans.push(style::styled(fit::take_chars(agents, 0, 1), faint));
            spans.push(
                style::styled(fit::take_chars(agents, 1, agent_pane_inner_width(w[4])), name),
            );
            spans.push(
                style::styled(text::tail_of(agents, 1 + agent_pane_inner_width(w[4])), faint),
            );
        },
    }
    Line { spans }
}

pub fn mission_styled_line(
    st: &AppState,
    line_idx: usize,
    line: &str,
    usable: usize,
    theme: &Theme,
) -> (r: Line)
    ensures
        r@ == styled_line(*st, line_idx as int, line@, usable as int, *theme),
{
    if st.agents.missions.len() == 0 {
        return style::single(text::copy(line), styles::muted(*theme));
    }
    let body: usize = text::minus(line_idx, 2);
    match mission_body_meta(st, body) {
        Some(meta) => {
            proof {
                let high: Seq<nat> = heights(st.agents.missions@);
                let count: usize = st.agents.missions.len();
                blocks::rows_are_in_blocks(high, high.len() as int, body as int);
            }
            row_line(st, meta, line, usable, theme)
        },
        None => style::single(text::copy(line), styles::plain_text(*theme)),
    }
}

/// Every line of the table is drawn with its own text.
pub proof fn drawn_lines_keep_text(
    st: AppState,
    line_idx: int,
    line: Seq<char>,
    usable: int,
    theme: Theme,
)
    ensures
        style::plain_text(styled_line(st, line_idx, line, usable, theme)) == line,
{
    let missions: Seq<Mission> = st.agents.missions@;
    let rows: Seq<(int, int)> = blocks::rows(heights(missions));
    let body: int = text::monus(line_idx, 2);
    style::one_piece_text(style::piece(line, styles::muted(theme)));
    style::one_piece_text(style::piece(line, styles::plain_text(theme)));
    if missions.len() > 0 && body < rows.len() {
        rows_keep_text(st, meta_of(missions, rows[body]), line, usable, theme);
    }
}

proof fn front_keeps_text(
    st: AppState,
    meta: MissionBodyMeta,
    line: Seq<char>,
    usable: int,
    theme: Theme,
)
    ensures
        style::plain_text(front_pieces(st, meta, line, usable, theme)) == text::head(
            line,
            fit::column_start(mission_widths(usable), 4),
        ),
        mission_widths(usable).len() == 5,
{
    let w: Seq<usize> = mission_widths(usable);
    let behind: Seq<char> = styles::behind_columns(line, w, 4);
    let mission: Mission = st.agents.missions@[meta.mission_idx as int];
    let sel: bool = meta.mission_idx == st.agents.mission_selected;
    let striped: bool = !sel && meta.mission_idx % 2 == 1;
    let on = |s: Style| styles::striped_row_style(s, sel, striped, theme);
    let faint: Style = on(styles::muted(theme));
    let first: bool = meta.agent_row == Some(0usize);
    let marker: Piece = style::piece(
        text::head(line, 1),
        if sel && first {
            on(Style::plain().fg(theme.accent))
        } else {
            faint
        },
    );
    let looks: Seq<Style> = if first {
        seq![
            on(styles::plain_text(theme)),
            on(styles::mission_phase_style(mission.phase, theme)),
            on(
                if mission.swarm {
                    Style::plain().fg(theme.accent)
                } else {
                    styles::muted(theme)
                },
            ),
            on(styles::status_style(mission.status@, theme)),
        ]
    } else {
        seq![faint, faint, faint, faint]
    };
    fit::every_column_has_a_width(
        text::monus(usable, 1),
        seq![6, 6, 3, 6, 8],
        seq![12, 8, 5, 12, 18],
        4,
    );
    style::one_piece_text(marker);
    styles::columns_keep_text(seq![marker], line, w, looks, on(Style::plain()), 0, 4);
    let gap: Piece = style::piece(text::head(behind, 1), on(Style::plain()));
    let four: Seq<Piece> = styles::with_columns(
        seq![marker],
        line,
        w,
        looks,
        on(Style::plain()),
        0,
        4,
    );
    style::plain_text_push(four, gap);
    styles::starts_are_positive(w, 4);
    assert(front_pieces(st, meta, line, usable, theme) == four.push(gap));
    assert(text::head(line, fit::column_start(w, 4) - 1) + text::head(behind, 1) =~= text::head(
        line,
        fit::column_start(w, 4),
    ));
}

proof fn rows_keep_text(
    st: AppState,
    meta: MissionBodyMeta,
    line: Seq<char>,
    usable: int,
    theme: Theme,
)
    ensures
        style::plain_text(row_pieces(st, meta, line, usable, theme)) == line,
{
    let w: Seq<usize> = mission_widths(usable);
    let agents: Seq<char> = text::tail(styles::behind_columns(line, w, 4), 1);
    let front: Seq<Piece> = front_pieces(st, meta, line, usable, theme);
    let row: Seq<Piece> = row_pieces(st, meta, line, usable, theme);
    let start: Seq<char> = text::head(line, fit::column_start(w, 4));
    front_keeps_text(st, meta, line, usable, theme);
    styles::starts_are_positive(w, 4);
    assert(start + agents =~= line);
    match meta.agent_row {
        None => {
            style::plain_text_push(front, row.last());
        },
        Some(_) => {
            let inner: int = inner_width(w[4] as int);
            let a: Seq<char> = fit::slice(agents, 0, 1);
            let b: Seq<char> = fit::slice(agents, 1, inner);
            let c: Seq<char> = text::tail(agents, 1 + inner);
            assert(a + b + c =~= agents);
            let n: int = front.len() as int;
            style::plain_text_push(front, row[n]);
            style::plain_text_push(front.push(row[n]), row[n + 1]);
            style::plain_text_push(front.push(row[n]).push(row[n + 1]), row[n + 2]);
            assert(start + a + b + c =~= start + (a + b + c));
        },
    }
}

} // verus!
