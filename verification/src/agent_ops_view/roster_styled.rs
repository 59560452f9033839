//! The lines of the roster in colour.

use vstd::prelude::*;

use crate::agent_ops_view::roster;
use crate::agent_ops_view::roster::RosterBodyMeta;
use crate::agent_ops_view::roster::RosterBodyNode;
use crate::agent_ops_view::roster::RosterSelectableRow;
use crate::agent_ops_view::roster_lines;
use crate::agent_ops_view::styles;
use crate::clone_labels;
use crate::fit;
use crate::state;
use crate::state::AgentLane;
use crate::state::AgentLaneKind;
use crate::state::AgentStatus;
use crate::state::AppState;
use crate::state::RosterTreeBranch;
use crate::state::RosterTreeSelection;
use crate::state::SwarmRuntime;
use crate::style;
use crate::style::Color;
use crate::style::Line;
use crate::style::Piece;
use crate::style::Span;
use crate::style::Style;
use crate::style::Theme;
use crate::text;

verus! {

/// The line of a back end: its name, whether it is there and whether it is in use.
pub open spec fn backend_pieces(
    name: Seq<char>,
    primary: Seq<char>,
    secondary: Seq<char>,
    accent: Color,
    available: bool,
    active: bool,
    theme: Theme,
) -> Seq<Piece> {
    let gap: Piece = style::piece("  "@, styles::plain_text(theme));
    let bright: Style = Style::plain().fg(accent).bold();
    seq![
        gap,
        style::piece(
            roster_lines::padded_name(name, 7),
            if available {
                bright
            } else {
                styles::muted(theme)
            },
        ),
        gap,
        style::piece(
            primary,
            if available {
                styles::plain_text(theme)
            } else {
                styles::muted(theme)
            },
        ),
        gap,
        style::piece(
            secondary,
            if active {
                bright
            } else {
                styles::muted(theme)
            },
        ),
    ]
}

pub fn roster_backend_styled_line(
    name: &str,
    primary: &str,
    secondary: &str,
    accent: Color,
    available: bool,
    active: bool,
    theme: &Theme,
) -> (r: Line)
    ensures
        r@ == backend_pieces(name@, primary@, secondary@, accent, available, active, *theme),
{
    let bright: Style = Style::plain().fg(accent).bold();
    let muted: Style = styles::muted(*theme);
    let plain: Style = styles::plain_text(*theme);
    let spans: Vec<Span> = vec![
        style::span("  ", plain),
        style::styled(
            roster_lines::pad_name(name, 7),
            if available {
                bright
            } else {
                muted
            },
        ),
        style::span("  ", plain),
        style::span(
            primary,
            if available {
                plain
            } else {
                muted
            },
        ),
        style::span("  ", plain),
        style::span(
            secondary,
            if active {
                bright
            } else {
                muted
            },
        ),
    ];
    let r: Line = Line { spans };
    assert(r@ =~= backend_pieces(
        name@,
        primary@,
        secondary@,
        accent,
        available,
        active,
        *theme,
    ));
    r
}

/// The line of back end `i` of the inventory.
pub open spec fn inventory_pieces(st: AppState, i: int, theme: Theme) -> Seq<Piece> {
    let (kind, installed) = if i == 0 {
        (AgentLaneKind::Codex, st.agents.codex_cli_available)
    } else if i == 1 {
        (AgentLaneKind::Claude, st.agents.claude_cli_available)
    } else if i == 2 {
        (AgentLaneKind::Gemini, st.agents.gemini_cli_available)
    } else {
        (AgentLaneKind::Mock, false)
    };
    let name: Seq<char> = roster_lines::group_label(st, kind);
    let local: bool = i >= 3;
    let here: bool = installed || roster_lines::some_kind(st, kind);
    backend_pieces(
        name,
        if local {
            "built-in"@
        } else if here {
            "available"@
        } else {
            "not found"@
        },
        if here {
            "active"@
        } else {
            "idle"@
        },
        styles::roster_lane_backend_accent(kind, theme),
        local || here,
        here,
        theme,
    )
}

fn inventory_line(st: &AppState, i: usize, theme: &Theme) -> (r: Line)
    ensures
        r@ == inventory_pieces(*st, i as int, *theme),
{
    let (kind, installed): (AgentLaneKind, bool) = if i == 0 {
        (AgentLaneKind::Codex, st.agents.codex_cli_available)
    } else if i == 1 {
        (AgentLaneKind::Claude, st.agents.claude_cli_available)
    } else if i == 2 {
        (AgentLaneKind::Gemini, st.agents.gemini_cli_available)
    } else {
        (AgentLaneKind::Mock, false)
    };
    let name: &str = roster_lines::roster_backend_group_label(st, kind);
    let local: bool = i >= 3;
    let here: bool = installed || roster_lines::has_kind(st, kind);
    roster_backend_styled_line(
        name,
        if local {
            "built-in"
        } else if here {
            "available"
        } else {
            "not found"
        },
        if here {
            "active"
        } else {
            "idle"
        },
        styles::roster_lane_backend_accent(kind, *theme),
        local || here,
        here,
        theme,
    )
}

/// A choice that can be clicked, lit where it is the current one.
pub open spec fn choice_piece(
    label: Seq<char>,
    value: Seq<char>,
    current: Seq<char>,
    theme: Theme,
) -> Piece {
    style::piece(
        label,
        if text::same_letters(current, value) {
            Style::plain().fg(theme.background).bg(theme.border_focused).bold()
        } else {
            styles::plain_text(theme).bg(
                style::dimmed(theme.cursor_line_bg, theme.background, 45),
            )
        },
    )
}

fn choice_span(label: &str, value: &str, current: &str, theme: &Theme) -> (r: Span)
    ensures
        r@ == choice_piece(label@, value@, current@, *theme),
{
    style::span(
        label,
        if text::eq_ignore_case(current, value) {
            Style::plain().fg(theme.background).bg(theme.border_focused).bold()
        } else {
            styles::plain_text(*theme).bg(
                style::dim_bg_towards(theme.cursor_line_bg, theme.background, 45),
            )
        },
    )
}

/// The line of the templates.
pub open spec fn template_pieces(current: Seq<char>, theme: Theme) -> Seq<Piece> {
    let gap: Piece = style::piece(" "@, styles::muted(theme));
    seq![
        style::piece(" Template: "@, styles::muted(theme)),
        choice_piece(" lab "@, "lab"@, current, theme),
        gap,
        choice_piece(" parallel "@, "parallel"@, current, theme),
        gap,
        choice_piece(" bulk "@, "bulk"@, current, theme),
    ]
}

fn template_line(current: &str, theme: &Theme) -> (r: Line)
    ensures
        r@ == template_pieces(current@, *theme),
{
    let muted: Style = styles::muted(*theme);
    let spans: Vec<Span> = vec![
        style::span(" Template: ", muted),
        choice_span(" lab ", "lab", current, theme),
        style::span(" ", muted),
        choice_span(" parallel ", "parallel", current, theme),
        style::span(" ", muted),
        choice_span(" bulk ", "bulk", current, theme),
    ];
    let r: Line = Line { spans };
    assert(r@ =~= template_pieces(current@, *theme));
    r
}

/// The line of the missions.
pub open spec fn mission_choice_pieces(current: Seq<char>, theme: Theme) -> Seq<Piece> {
    let gap: Piece = style::piece(" "@, styles::muted(theme));
    seq![
        style::piece(" Mission:  "@, styles::muted(theme)),
        choice_piece(" auto "@, "auto"@, current, theme),
        gap,
        choice_piece(" general "@, "general"@, current, theme),
        gap,
        choice_piece(" research "@, "research"@, current, theme),
        gap,
        choice_piece(" computational "@, "computational-research"@, current, theme),
    ]
}

fn mission_choice_line(current: &str, theme: &Theme) -> (r: Line)
    ensures
        r@ == mission_choice_pieces(current@, *theme),
{
    let muted: Style = styles::muted(*theme);
    let spans: Vec<Span> = vec![
        style::span(" Mission:  ", muted),
        choice_span(" auto ", "auto", current, theme),
        style::span(" ", muted),
        choice_span(" general ", "general", current, theme),
        style::span(" ", muted),
        choice_span(" research ", "research", current, theme),
        style::span(" ", muted),
        choice_span(" computational ", "computational-research", current, theme),
    ];
    let r: Line = Line { spans };
    assert(r@ =~= mission_choice_pieces(current@, *theme));
    r
}

/// What is drawn on the table without a style of its own.
pub open spec fn faint(theme: Theme) -> Style {
    styles::muted(theme).bg(styles::ops_table_bg(theme))
}

/// A row of the roster with one style for its first cell and one for the others.
pub open spec fn two_styles(
    line: Seq<char>,
    w: Seq<usize>,
    marker: Style,
    first: Style,
    other: Style,
    space: Style,
) -> Seq<Piece> {
    styles::table_row(
        line,
        w,
        marker,
        seq![first, other, other, other, other],
        space,
    )
}

fn row_in_two(
    line: &str,
    w: &Vec<usize>,
    marker_style: Style,
    first: Style,
    other: Style,
    space: Style,
) -> (r: Line)
    requires
        w@.len() == 5,
    ensures
        r@ == two_styles(line@, w@, marker_style, first, other, space),
{
    let looks: Vec<Style> = vec![first, other, other, other, other];
    assert(looks@ =~= seq![first, other, other, other, other]);
    styles::styled_row(line, w, marker_style, &looks, space)
}

/// The row of an agent.
pub open spec fn agent_pieces(
    st: AppState,
    agent: AgentLane,
    selected: bool,
    line: Seq<char>,
    w: Seq<usize>,
    theme: Theme,
) -> Seq<Piece> {
    let bg: Color = styles::ops_table_bg(theme);
    let role_cell: Seq<char> = fit::slice(line, 1, w[0] as int);
    let copy: bool = clone_labels::clone_tail(agent.id@) is Some || agent.chat_clone;
    let on = |s: Style| styles::selected_row_style(s, selected, theme);
    let role: Style = on(
        if copy {
            faint(theme)
        } else {
            styles::plain_text(theme).bg(bg)
        },
    );
    let looks: Seq<Style> = seq![
        role,
        on(
            if copy && agent.status != AgentStatus::Running {
                faint(theme)
            } else {
                styles::agent_status_style(agent.status, theme).bg(bg)
            },
        ),
        on(
            if copy {
                faint(theme)
            } else {
                styles::heartbeat_age_style(agent.heartbeat_age_secs, theme).bg(bg)
            },
        ),
        on(
            if copy {
                faint(theme)
            } else {
                styles::queue_len_style(agent.queue_len, theme).bg(bg)
            },
        ),
        on(
            if copy || agent.current_mission is None {
                faint(theme)
            } else {
                Style::plain().fg(theme.title).bg(bg)
            },
        ),
    ];
    let marker: Piece = style::piece(
        text::head(line, 1),
        if selected {
            on(Style::plain().fg(theme.accent).bg(bg))
        } else {
            faint(theme)
        },
    );
    let boxed: bool = agent.swarm_priority && (text::starts(role_cell, "[x] "@) || text::starts(
        role_cell,
        "[ ] "@,
    ));
    let before: Seq<Piece> = if boxed {
        seq![
            marker,
            style::piece(
                fit::slice(role_cell, 0, 4),
                on(
                    if state::listed(st.agents.swarm_priority_agent_ids@, agent.id@) {
                        Style::plain().fg(theme.warning).bg(bg)
                    } else {
                        faint(theme)
                    },
                ),
            ),
        ]
    } else {
        seq![marker]
    };
    let space: Style = on(Style::plain().bg(bg));
    styles::with_rest(
        styles::with_columns(
            before,
            line,
            w,
            looks,
            space,
            if boxed {
                4
            } else {
                0
            },
            5,
        ),
        styles::behind_columns(line, w, 5),
        space,
    )
}

fn agent_row(
    st: &AppState,
    agent: &AgentLane,
    selected: bool,
    line: &str,
    w: &Vec<usize>,
    theme: &Theme,
) -> (r: Line)
    requires
        w@.len() == 5,
    ensures
        r@ == agent_pieces(*st, *agent, selected, line@, w@, *theme),
{
    broadcast use style::group_lines;

    let bg: Color = styles::ops_table_bg(*theme);
    let copy: bool = clone_labels::is_swarm_clone_agent_id(agent.id.as_str()) || agent.chat_clone;
    let faint: Style = styles::muted(*theme).bg(bg);
    let role: Style = styles::selected_row_style(
        if copy {
            faint
        } else {
            styles::plain_text(*theme).bg(bg)
        },
        selected,
        *theme,
    );
    let status: Style = styles::selected_row_style(
        if copy && agent.status != AgentStatus::Running {
            faint
        } else {
            styles::agent_status_style(agent.status, *theme).bg(bg)
        },
        selected,
        *theme,
    );
    let heartbeat: Style = styles::selected_row_style(
        if copy {
            faint
        } else {
            styles::heartbeat_age_style(agent.heartbeat_age_secs, *theme).bg(bg)
        },
        selected,
        *theme,
    );
    let queue: Style = styles::selected_row_style(
        if copy {
            faint
        } else {
            styles::queue_len_style(agent.queue_len, *theme).bg(bg)
        },
        selected,
        *theme,
    );
    let mission: Style = styles::selected_row_style(
        if copy || agent.current_mission.is_none() {
            faint
        } else {
            Style::plain().fg(theme.title).bg(bg)
        },
        selected,
        *theme,
    );
    let looks: Vec<Style> = vec![role, status, heartbeat, queue, mission];
    let space: Style = styles::selected_row_style(Style::plain().bg(bg), selected, *theme);
    let marker_style: Style = if selected {
        styles::selected_row_style(Style::plain().fg(theme.accent).bg(bg), selected, *theme)
    } else {
        faint
    };
    let mut spans: Vec<Span> = vec![style::styled(text::head_of(line, 1), marker_style)];
    let role_cell: String = fit::take_chars(line, 1, w[0]);
    let boxed: bool = agent.swarm_priority && (text::starts_with(role_cell.as_str(), "[x] ")
        || text::starts_with(role_cell.as_str(), "[ ] "));
    if boxed {
        let checked: bool = state::contains_text(
            &st.agents.swarm_priority_agent_ids,
            agent.id.as_str(),
        );
        let prefix: Style = styles::selected_row_style(
            if checked {
                Style::plain().fg(theme.warning).bg(bg)
            } else {
                faint
            },
            selected,
            *theme,
        );
        spans.push(style::styled(fit::take_chars(role_cell.as_str(), 0, 4), prefix));
        assert(style::pieces(spans@) =~= seq![
            style::pieces(spans@)[0],
            style::pieces(spans@)[1],
        ]);
    } else {
        assert(style::pieces(spans@) =~= seq![style::pieces(spans@)[0]]);
    }
    let skip: usize = if boxed {
        4
    } else {
        0
    };
    let cells: Vec<Span> = styles::push_columns(spans, line, w, &looks, space, skip, 5);
    let r: Line = Line {
        spans: styles::push_rest(cells, styles::text_behind(line, w, 5), space),
    };
    assert(looks@ =~= seq![role, status, heartbeat, queue, mission]);
    assert(r@ == agent_pieces(*st, *agent, selected, line@, w@, *theme));
    r
}

/// The role of an agent as its tree of choices marks it.
pub open spec fn marked_role(st: AppState, id: Seq<char>) -> Seq<char> {
    let given: Seq<char> = match state::value_of(st.agents.swarm_role_by_agent_id@, id) {
        Some(s) => text::trimmed(s@),
        None => Seq::empty(),
    };
    clone_labels::role_hint(
        st.agents.role_names@,
        if given.len() > 0 {
            given
        } else {
            "all"@
        },
    )
}

/// Whether a leaf of the tree is what the agent is set to.
pub open spec fn is_chosen(
    st: AppState,
    id: Seq<char>,
    branch: RosterTreeBranch,
    leaf_idx: int,
) -> bool {
    match branch {
        RosterTreeBranch::Size => {
            let sizes: Seq<String> = roster_lines::efforts(st, id);
            0 <= leaf_idx < sizes.len() && roster_lines::chosen_effort(st, id) == Some(
                sizes[leaf_idx]@,
            )
        },
        RosterTreeBranch::Role => 0 <= leaf_idx < 8 && marked_role(st, id)
            == clone_labels::role_hint(
            st.agents.role_names@,
            roster_lines::role_options()[leaf_idx],
        ),
    }
}

fn chosen(st: &AppState, id: &str, branch: RosterTreeBranch, leaf_idx: usize) -> (r: bool)
    ensures
        r == is_chosen(*st, id@, branch, leaf_idx as int),
{
    match branch {
        RosterTreeBranch::Size => match roster_lines::efforts_of(st, id) {
            Some(sizes) => leaf_idx < sizes.len() && (match roster_lines::effort_of(st, id) {
                Some(s) => text::str_eq(s.as_str(), sizes[leaf_idx].as_str()),
                None => false,
            }),
            None => false,
        },
        RosterTreeBranch::Role => {
            if leaf_idx >= 8 {
                return false;
            }
            let given: String = match state::lookup(&st.agents.swarm_role_by_agent_id, id) {
                Some(s) => text::trim(s.as_str()),
                None => String::new(),
            };
            let mine: String = if text::length(given.as_str()) > 0 {
                clone_labels::normalize_roster_role_hint(&st.agents.role_names, given.as_str())
            } else {
                clone_labels::normalize_roster_role_hint(&st.agents.role_names, "all")
            };
            let other: String = clone_labels::normalize_roster_role_hint(
                &st.agents.role_names,
                roster_lines::role_option(leaf_idx),
            );
            text::str_eq(mine.as_str(), other.as_str())
        },
    }
}

/// The row of a line of the body.
pub open spec fn node_pieces(
    st: AppState,
    meta: RosterBodyMeta,
    line: Seq<char>,
    usable: int,
    theme: Theme,
) -> Seq<Piece> {
    let bg: Color = styles::ops_table_bg(theme);
    let w: Seq<usize> = roster_lines::roster_widths(usable);
    let lit: Style = Style::plain().fg(theme.accent).bg(bg);
    match (meta.node, meta.agent_idx) {
        (RosterBodyNode::Backend { backend }, _) => {
            let sel: bool = roster::selected(st) == Some(RosterSelectableRow::Backend { backend });
            let on = |s: Style| styles::selected_row_style(s, sel, theme);
            two_styles(
                line,
                w,
                on(
                    if sel {
                        lit
                    } else {
                        faint(theme)
                    },
                ),
                on(
                    Style::plain().fg(styles::roster_lane_backend_accent(backend, theme)).bold().bg(
                        bg,
                    ),
                ),
                on(faint(theme)),
                on(Style::plain().bg(bg)),
            )
        },
        (RosterBodyNode::Agent, Some(idx)) => agent_pieces(
            st,
            st.agents.agents@[idx as int],
            roster::selected(st) == Some(RosterSelectableRow::Agent { agent_idx: idx })
                && st.agents.roster_tree_selected is None,
            line,
            w,
            theme,
        ),
        (RosterBodyNode::Branch { branch }, Some(idx)) => {
            let active: bool = idx == st.agents.roster_selected
                && (st.agents.roster_tree_selected matches Some(sel) && sel.branch == branch);
            two_styles(
                line,
                w,
                faint(theme),
                if active {
                    styles::plain_text(theme).bg(bg)
                } else {
                    faint(theme)
                },
                faint(theme),
                faint(theme),
            )
        },
        (RosterBodyNode::Leaf { branch, leaf_idx }, Some(idx)) => {
            let sel: bool = idx == st.agents.roster_selected && st.agents.roster_tree_selected
                == Some(RosterTreeSelection { branch, leaf_idx });
            let cell: Style = styles::selected_row_style(Style::plain().bg(bg), sel, theme);
            two_styles(
                line,
                w,
                if sel {
                    styles::selected_row_style(lit, true, theme)
                } else {
                    faint(theme)
                },
                styles::selected_row_style(
                    if is_chosen(st, st.agents.agents@[idx as int].id@, branch, leaf_idx as int) {
                        Style::plain().fg(theme.title_focused).bg(bg)
                    } else {
                        faint(theme)
                    },
                    sel,
                    theme,
                ),
                cell,
                cell,
            )
        },
        (_, None) => seq![style::piece(line, styles::plain_text(theme).bg(bg))],
    }
}

fn same_row(a: Option<RosterSelectableRow>, b: RosterSelectableRow) -> (r: bool)
    ensures
        r == (a == Some(b)),
{
    match a {
        Some(x) => x == b,
        None => false,
    }
}

fn node_row(st: &AppState, meta: RosterBodyMeta, line: &str, usable: usize, theme: &Theme) -> (r:
    Line)
    requires
        roster_lines::sound(*st, meta),
    ensures
        r@ == node_pieces(*st, meta, line@, usable as int, *theme),
{
    let widths: Vec<usize> = roster_lines::roster_column_widths(usable);
    let bg: Color = styles::ops_table_bg(*theme);
    let faint: Style = styles::muted(*theme).bg(bg);
    let lit: Style = Style::plain().fg(theme.accent).bg(bg);
    let selected_row: Option<RosterSelectableRow> = roster::roster_selected_row(st);
    match (meta.node, meta.agent_idx) {
        (RosterBodyNode::Backend { backend }, _) => {
            let sel: bool = same_row(selected_row, RosterSelectableRow::Backend { backend });
            let accent: Style = Style::plain().fg(
                styles::roster_lane_backend_accent(backend, *theme),
            ).bold().bg(bg);
            row_in_two(
                line,
                &widths,
                styles::selected_row_style(
                    if sel {
                        lit
                    } else {
                        faint
                    },
                    sel,
                    *theme,
                ),
                styles::selected_row_style(accent, sel, *theme),
                styles::selected_row_style(faint, sel, *theme),
                styles::selected_row_style(Style::plain().bg(bg), sel, *theme),
            )
        },
        (RosterBodyNode::Agent, Some(idx)) => {
            let sel: bool = same_row(selected_row, RosterSelectableRow::Agent { agent_idx: idx })
                && st.agents.roster_tree_selected.is_none();
            agent_row(st, &st.agents.agents[idx], sel, line, &widths, theme)
        },
        (RosterBodyNode::Branch { branch }, Some(idx)) => {
            let active: bool = idx == st.agents.roster_selected && (match
                st.agents.roster_tree_selected {
                Some(sel) => sel.branch == branch,
                None => false,
            });
            row_in_two(
                line,
                &widths,
                faint,
                if active {
                    styles::plain_text(*theme).bg(bg)
                } else {
                    faint
                },
                faint,
                faint,
            )
        },
        (RosterBodyNode::Leaf { branch, leaf_idx }, Some(idx)) => {
            let sel: bool = idx == st.agents.roster_selected && (match
                st.agents.roster_tree_selected {
                Some(s) => s.branch == branch && s.leaf_idx == leaf_idx,
                None => false,
            });
            let cell: Style = styles::selected_row_style(Style::plain().bg(bg), sel, *theme);
            let mine: bool = chosen(st, st.agents.agents[idx].id.as_str(), branch, leaf_idx);
            row_in_two(
                line,
                &widths,
                if sel {
                    styles::selected_row_style(lit, true, *theme)
                } else {
                    faint
                },
                styles::selected_row_style(
                    if mine {
                        Style::plain().fg(theme.title_focused).bg(bg)
                    } else {
                        faint
                    },
                    sel,
                    *theme,
                ),
                cell,
                cell,
            )
        },
        (_, None) => style::single(text::copy(line), styles::plain_text(*theme).bg(bg)),
    }
}

/// Line `line_idx` of the roster, whose text is `line`.
pub open spec fn styled_line(
    st: AppState,
    line_idx: int,
    line: Seq<char>,
    usable: int,
    theme: Theme,
) -> Seq<Piece> {
    let bg: Color = styles::ops_table_bg(theme);
    if line_idx == 0 {
        seq![style::piece(line, Style::plain().fg(theme.title))]
    } else if 1 <= line_idx < 5 {
        inventory_pieces(st, line_idx - 1, theme)
    } else if line_idx == 5 || line_idx == 8 {
        seq![style::piece(line, styles::plain_text(theme))]
    } else if line_idx == 6 {
        template_pieces(st.agents.swarm_default_template@, theme)
    } else if line_idx == 7 {
        mission_choice_pieces(st.agents.swarm_default_mission@, theme)
    } else if line_idx == 9 {
        seq![style::piece(line, Style::plain().fg(theme.border).bg(bg))]
    } else if line_idx == 10 || (line.len() > 0 && text::only(line, '─')) {
        seq![style::piece(line, faint(theme))]
    } else if line_idx - 11 < roster_lines::body_nodes(st, false).len() {
        node_pieces(
            st,
            roster_lines::body_nodes(st, false)[line_idx - 11],
            line,
            usable,
            theme,
        )
    } else if st.agents.agents@.len() == 0 {
        seq![style::piece(line, styles::muted(theme))]
    } else {
        seq![style::piece(line, styles::plain_text(theme))]
    }
}

pub fn roster_styled_line(
    st: &AppState,
    line_idx: usize,
    line: &str,
    usable: usize,
    theme: &Theme,
) -> (r: Line)
    ensures
        r@ == styled_line(*st, line_idx as int, line@, usable as int, *theme),
{
    let bg: Color = styles::ops_table_bg(*theme);
    let faint: Style = styles::muted(*theme).bg(bg);
    if line_idx == 0 {
        return style::single(text::copy(line), Style::plain().fg(theme.title));
    }
    if line_idx < 5 {
        return inventory_line(st, line_idx - 1, theme);
    }
    if line_idx == 5 || line_idx == 8 {
        return style::single(text::copy(line), styles::plain_text(*theme));
    }
    if line_idx == 6 {
        return template_line(st.agents.swarm_default_template.as_str(), theme);
    }
    if line_idx == 7 {
        return mission_choice_line(st.agents.swarm_default_mission.as_str(), theme);
    }
    if line_idx == 9 {
        return style::single(text::copy(line), Style::plain().fg(theme.border).bg(bg));
    }
    if line_idx == 10 || (text::length(line) > 0 && text::is_only(line, '─')) {
        return style::single(text::copy(line), faint);
    }
    match roster_lines::roster_meta_for_body_line(st, line_idx - 11) {
        Some(meta) => {
            proof {
                let count: usize = st.agents.agents.len();
                roster_lines::body_nodes_are_sound(
                    *st,
                    false,
                    roster::groups(*st).len() as int,
                );
            }
            node_row(st, meta, line, usable, theme)
        },
        None => style::single(
            text::copy(line),
            if st.agents.agents.len() == 0 {
                styles::muted(*theme)
            } else {
                styles::plain_text(*theme)
            },
        ),
    }
}

proof fn few_pieces_text(a: Piece, b: Piece, c: Piece, d: Piece, e: Piece, f: Piece)
    ensures
        style::plain_text(seq![a, b, c, d, e, f]) == a.text + b.text + c.text + d.text + e.text
            + f.text,
{
    style::one_piece_text(a);
    assert(seq![a].push(b).push(c).push(d).push(e).push(f) =~= seq![a, b, c, d, e, f]);
    style::plain_text_push(seq![a], b);
    style::plain_text_push(seq![a].push(b), c);
    style::plain_text_push(seq![a].push(b).push(c), d);
    style::plain_text_push(seq![a].push(b).push(c).push(d), e);
    style::plain_text_push(seq![a].push(b).push(c).push(d).push(e), f);
}

proof fn inventory_keeps_text(st: AppState, width: int, i: int, theme: Theme)
    requires
        0 <= i < 4,
    ensures
        style::plain_text(inventory_pieces(st, i, theme)) == roster_lines::header_lines(
            st,
            width,
        )[1 + i],
{
    let p: Seq<Piece> = inventory_pieces(st, i, theme);
    few_pieces_text(p[0], p[1], p[2], p[3], p[4], p[5]);
    assert(p =~= seq![p[0], p[1], p[2], p[3], p[4], p[5]]);
    assert(style::plain_text(p) =~= roster_lines::header_lines(st, width)[1 + i]);
}

proof fn templates_keep_text(current: Seq<char>, theme: Theme)
    ensures
        style::plain_text(template_pieces(current, theme))
            == roster_lines::ROSTER_SWARM_TEMPLATE_LINE@,
{
    reveal_strlit(" Template: ");
    reveal_strlit(" lab ");
    reveal_strlit(" ");
    reveal_strlit(" parallel ");
    reveal_strlit(" bulk ");
    reveal_strlit(" Template:  lab   parallel   bulk ");
    let p: Seq<Piece> = template_pieces(current, theme);
    few_pieces_text(p[0], p[1], p[2], p[3], p[4], p[5]);
    assert(p =~= seq![p[0], p[1], p[2], p[3], p[4], p[5]]);
    assert(style::plain_text(p) =~= roster_lines::ROSTER_SWARM_TEMPLATE_LINE@);
}

proof fn mission_choices_keep_text(current: Seq<char>, theme: Theme)
    ensures
        style::plain_text(mission_choice_pieces(current, theme))
            == roster_lines::ROSTER_SWARM_MISSION_LINE@,
{
    reveal_strlit(" Mission:  ");
    reveal_strlit(" auto ");
    reveal_strlit(" ");
    reveal_strlit(" general ");
    reveal_strlit(" research ");
    reveal_strlit(" computational ");
    reveal_strlit(" Mission:   auto   general   research   computational ");
    let p: Seq<Piece> = mission_choice_pieces(current, theme);
    let six: Seq<Piece> = seq![p[0], p[1], p[2], p[3], p[4], p[5]];
    few_pieces_text(p[0], p[1], p[2], p[3], p[4], p[5]);
    style::plain_text_push(six, p[6]);
    style::plain_text_push(six.push(p[6]), p[7]);
    assert(p =~= six.push(p[6]).push(p[7]));
    assert(style::plain_text(p) =~= roster_lines::ROSTER_SWARM_MISSION_LINE@);
}

proof fn agents_keep_text(
    st: AppState,
    agent: AgentLane,
    selected: bool,
    line: Seq<char>,
    w: Seq<usize>,
    theme: Theme,
)
    requires
        w.len() == 5,
    ensures
        style::plain_text(agent_pieces(st, agent, selected, line, w, theme)) == line,
{
    reveal_strlit("[x] ");
    reveal_strlit("[ ] ");
    let bg: Color = styles::ops_table_bg(theme);
    let copy: bool = clone_labels::clone_tail(agent.id@) is Some || agent.chat_clone;
    let on = |s: Style| styles::selected_row_style(s, selected, theme);
    let role_cell: Seq<char> = fit::slice(line, 1, w[0] as int);
    let space: Style = on(Style::plain().bg(bg));
    let role: Style = on(
        if copy {
            faint(theme)
        } else {
            styles::plain_text(theme).bg(bg)
        },
    );
    let looks: Seq<Style> = seq![
        role,
        on(
            if copy && agent.status != AgentStatus::Running {
                faint(theme)
            } else {
                styles::agent_status_style(agent.status, theme).bg(bg)
            },
        ),
        on(
            if copy {
                faint(theme)
            } else {
                styles::heartbeat_age_style(agent.heartbeat_age_secs, theme).bg(bg)
            },
        ),
        on(
            if copy {
                faint(theme)
            } else {
                styles::queue_len_style(agent.queue_len, theme).bg(bg)
            },
        ),
        on(
            if copy || agent.current_mission is None {
                faint(theme)
            } else {
                Style::plain().fg(theme.title).bg(bg)
            },
        ),
    ];
    let marker: Piece = style::piece(
        text::head(line, 1),
        if selected {
            on(Style::plain().fg(theme.accent).bg(bg))
        } else {
            faint(theme)
        },
    );
    let boxed: bool = agent.swarm_priority && (text::starts(role_cell, "[x] "@) || text::starts(
        role_cell,
        "[ ] "@,
    ));
    let mark: Piece = style::piece(
        fit::slice(role_cell, 0, 4),
        on(
            if state::listed(st.agents.swarm_priority_agent_ids@, agent.id@) {
                Style::plain().fg(theme.warning).bg(bg)
            } else {
                faint(theme)
            },
        ),
    );
    let before: Seq<Piece> = if boxed {
        seq![marker, mark]
    } else {
        seq![marker]
    };
    let skip: int = if boxed {
        4
    } else {
        0
    };
    style::one_piece_text(marker);
    if boxed {
        style::plain_text_push(seq![marker], mark);
        assert(seq![marker].push(mark) =~= before);
        assert(role_cell.len() >= 4);
        assert(text::head(line, 1) + fit::slice(role_cell, 0, 4) =~= text::head(line, 5));
    }
    styles::columns_keep_text(before, line, w, looks, space, skip, 5);
    let cells: Seq<Piece> = styles::with_columns(before, line, w, looks, space, skip, 5);
    styles::rest_keeps_text(cells, styles::behind_columns(line, w, 5), space);
    text::head_tail(line, fit::column_start(w, 5) - 1);
    assert(agent_pieces(st, agent, selected, line, w, theme) == styles::with_rest(
        cells,
        styles::behind_columns(line, w, 5),
        space,
    ));
}

proof fn nodes_keep_text(
    st: AppState,
    meta: RosterBodyMeta,
    line: Seq<char>,
    usable: int,
    theme: Theme,
)
    ensures
        style::plain_text(node_pieces(st, meta, line, usable, theme)) == line,
{
    let bg: Color = styles::ops_table_bg(theme);
    let w: Seq<usize> = roster_lines::roster_widths(usable);
    let lit: Style = Style::plain().fg(theme.accent).bg(bg);
    roster_lines::roster_has_five_columns(usable);
    match (meta.node, meta.agent_idx) {
        (RosterBodyNode::Backend { backend }, _) => {
            let sel: bool = roster::selected(st) == Some(RosterSelectableRow::Backend { backend });
            let on = |s: Style| styles::selected_row_style(s, sel, theme);
            let first: Style = on(
                Style::plain().fg(styles::roster_lane_backend_accent(backend, theme)).bold().bg(bg),
            );
            let other: Style = on(faint(theme));
            styles::rows_keep_text(
                line,
                w,
                on(
                    if sel {
                        lit
                    } else {
                        faint(theme)
                    },
                ),
                seq![first, other, other, other, other],
                on(Style::plain().bg(bg)),
            );
        },
        (RosterBodyNode::Agent, Some(idx)) => {
            agents_keep_text(
                st,
                st.agents.agents@[idx as int],
                roster::selected(st) == Some(RosterSelectableRow::Agent { agent_idx: idx })
                    && st.agents.roster_tree_selected is None,
                line,
                w,
                theme,
            );
        },
        (RosterBodyNode::Branch { branch }, Some(idx)) => {
            let active: bool = idx == st.agents.roster_selected
                && (st.agents.roster_tree_selected matches Some(sel) && sel.branch == branch);
            let first: Style = if active {
                styles::plain_text(theme).bg(bg)
            } else {
                faint(theme)
            };
            let other: Style = faint(theme);
            styles::rows_keep_text(
                line,
                w,
                other,
                seq![first, other, other, other, other],
                other,
            );
        },
        (RosterBodyNode::Leaf { branch, leaf_idx }, Some(idx)) => {
            let sel: bool = idx == st.agents.roster_selected && st.agents.roster_tree_selected
                == Some(RosterTreeSelection { branch, leaf_idx });
            let cell: Style = styles::selected_row_style(Style::plain().bg(bg), sel, theme);
            let first: Style = styles::selected_row_style(
                if is_chosen(st, st.agents.agents@[idx as int].id@, branch, leaf_idx as int) {
                    Style::plain().fg(theme.title_focused).bg(bg)
                } else {
                    faint(theme)
                },
                sel,
                theme,
            );
            styles::rows_keep_text(
                line,
                w,
                if sel {
                    styles::selected_row_style(lit, true, theme)
                } else {
                    faint(theme)
                },
                seq![first, cell, cell, cell, cell],
                cell,
            );
        },
        (_, None) => {
            style::one_piece_text(style::piece(line, styles::plain_text(theme).bg(bg)));
        },
    }
}

/// Every line of the roster is drawn with its own text.
pub proof fn drawn_lines_keep_text(
    st: AppState,
    swarm: Option<&SwarmRuntime>,
    line_idx: int,
    usable: int,
    theme: Theme,
)
    requires
        0 <= line_idx < roster_lines::all_lines(st, swarm, usable).len(),
    ensures
        ({
            let line: Seq<char> = roster_lines::all_lines(st, swarm, usable)[line_idx];
            style::plain_text(styled_line(st, line_idx, line, usable, theme)) == line
        }),
{
    let line: Seq<char> = roster_lines::all_lines(st, swarm, usable)[line_idx];
    let all: Seq<Piece> = styled_line(st, line_idx, line, usable, theme);
    let head: Seq<Seq<char>> = roster_lines::header_lines(st, usable);
    if line_idx < head.len() {
        assert(line == head[line_idx]);
    }
    if 1 <= line_idx < 5 {
        inventory_keeps_text(st, usable, line_idx - 1, theme);
    } else if line_idx == 6 {
        templates_keep_text(st.agents.swarm_default_template@, theme);
    } else if line_idx == 7 {
        mission_choices_keep_text(st.agents.swarm_default_mission@, theme);
    } else if line_idx > 10 && !(line.len() > 0 && text::only(line, '─')) && line_idx - 11
        < roster_lines::body_nodes(st, false).len() {
        nodes_keep_text(
            st,
            roster_lines::body_nodes(st, false)[line_idx - 11],
            line,
            usable,
            theme,
        );
    } else {
        style::one_piece_text(all[0]);
        assert(all =~= seq![all[0]]);
    }
}

} // verus!
