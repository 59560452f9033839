//! The lines of the roster.

use vstd::prelude::*;

use crate::agent_ops_view::glyphs;
use crate::agent_ops_view::roster;
use crate::agent_ops_view::roster::RosterBodyMeta;
use crate::agent_ops_view::roster::RosterBodyNode;
use crate::agent_ops_view::roster::RosterSelectableRow;
use crate::clone_labels;
use crate::fit;
use crate::state;
use crate::state::AgentLane;
use crate::state::AgentLaneKind;
use crate::state::AppState;
use crate::state::Entry;
use crate::state::RosterTreeBranch;
use crate::state::RosterTreeSelection;
use crate::state::SwarmRuntime;
use crate::text;

verus! {

pub const ROSTER_SWARM_TEMPLATE_LINE: &'static str = " Template:  lab   parallel   bulk ";

pub const ROSTER_SWARM_MISSION_LINE: &'static str =
    " Mission:   auto   general   research   computational ";

/// Whether column `col` lies on the first `label` in `line`.
pub open spec fn on_label(line: Seq<char>, label: Seq<char>, col: int) -> bool {
    match text::find(line, label) {
        Some(start) => start <= col < start + label.len(),
        None => false,
    }
}

fn hits(line: &str, label: &str, col: usize) -> (r: bool)
    ensures
        r == on_label(line@, label@, col as int),
{
    match text::find_text(line, label) {
        Some(start) => col >= start && col < start + text::length(label),
        None => false,
    }
}

/// The template under a column of the template line.
pub fn roster_swarm_template_hit(col: usize) -> (r: Option<&'static str>)
    ensures
        ({
            let line: Seq<char> = ROSTER_SWARM_TEMPLATE_LINE@;
            text::opt_str(r) == (if on_label(line, " lab "@, col as int) {
                Some("lab"@)
            } else if on_label(line, " parallel "@, col as int) {
                Some("parallel"@)
            } else if on_label(line, " bulk "@, col as int) {
                Some("bulk"@)
            } else {
                None
            })
        }),
{
    if hits(ROSTER_SWARM_TEMPLATE_LINE, " lab ", col) {
        Some("lab")
    } else if hits(ROSTER_SWARM_TEMPLATE_LINE, " parallel ", col) {
        Some("parallel")
    } else if hits(ROSTER_SWARM_TEMPLATE_LINE, " bulk ", col) {
        Some("bulk")
    } else {
        None
    }
}

/// The kind of mission under a column of the mission line.
pub fn roster_swarm_mission_hit(col: usize) -> (r: Option<&'static str>)
    ensures
        ({
            let line: Seq<char> = ROSTER_SWARM_MISSION_LINE@;
            text::opt_str(r) == (if on_label(line, " auto "@, col as int) {
                Some("auto"@)
            } else if on_label(line, " general "@, col as int) {
                Some("general"@)
            } else if on_label(line, " research "@, col as int) {
                Some("research"@)
            } else if on_label(line, " computational "@, col as int) {
                Some("computational-research"@)
            } else {
                None
            })
        }),
{
    if hits(ROSTER_SWARM_MISSION_LINE, " auto ", col) {
        Some("auto")
    } else if hits(ROSTER_SWARM_MISSION_LINE, " general ", col) {
        Some("general")
    } else if hits(ROSTER_SWARM_MISSION_LINE, " research ", col) {
        Some("research")
    } else if hits(ROSTER_SWARM_MISSION_LINE, " computational ", col) {
        Some("computational-research")
    } else {
        None
    }
}

/// The widths of the columns of the roster: what would be left over for the missions goes to the
/// roles.
pub open spec fn roster_widths(width: int) -> Seq<usize> {
    let widths: Seq<usize> = fit::allocated(
        text::monus(width, 1),
        seq![4, 6, 2, 1, 7],
        seq![28, 10, 4, 2, 10],
        4,
    );
    if widths[4] > 10 {
        let extra: int = widths[4] - 10;
        widths.update(4, 10).update(0, text::min_int(widths[0] + extra, usize::MAX as int) as usize)
    } else {
        widths
    }
}

/// The roster has five columns.
pub proof fn roster_has_five_columns(width: int)
    ensures
        roster_widths(width).len() == 5,
{
    fit::every_column_has_a_width(
        text::monus(width, 1),
        seq![4, 6, 2, 1, 7],
        seq![28, 10, 4, 2, 10],
        4,
    );
}

pub proof fn five_columns_sum()
    ensures
        fit::sum(seq![4usize, 6, 2, 1, 7]) == 20,
        fit::sum(seq![28usize, 10, 4, 2, 10]) == 54,
{
    reveal_with_fuel(fit::sum, 6);
    let a: Seq<usize> = seq![4usize, 6, 2, 1, 7];
    let b: Seq<usize> = seq![28usize, 10, 4, 2, 10];
    assert(a.drop_last() =~= seq![4usize, 6, 2, 1]);
    assert(a.drop_last().drop_last() =~= seq![4usize, 6, 2]);
    assert(a.drop_last().drop_last().drop_last() =~= seq![4usize, 6]);
    assert(b.drop_last() =~= seq![28usize, 10, 4, 2]);
    assert(b.drop_last().drop_last() =~= seq![28usize, 10, 4]);
    assert(b.drop_last().drop_last().drop_last() =~= seq![28usize, 10]);
}

pub fn roster_column_widths(width: usize) -> (r: Vec<usize>)
    ensures
        r@ == roster_widths(width as int),
        r@.len() == 5,
{
    let mins: Vec<usize> = vec![4, 6, 2, 1, 7];
    let prefs: Vec<usize> = vec![28, 10, 4, 2, 10];
    proof {
        five_columns_sum();
        assert(mins@ =~= seq![4usize, 6, 2, 1, 7]);
        assert(prefs@ =~= seq![28usize, 10, 4, 2, 10]);
    }
    let mut widths: Vec<usize> = fit::allocate_columns(text::minus(width, 1), &mins, &prefs, 4);
    if widths[4] > 10 {
        let extra: usize = widths[4] - 10;
        widths.set(4, 10);
        let first: usize = widths[0].saturating_add(extra);
        widths.set(0, first);
    }
    widths
}

/// Whether a column lies in the role cell of a row, behind its marker.
pub fn roster_role_cell_hit(col: usize, width: usize) -> (r: bool)
    ensures
        r == (1 <= col < 1 + roster_widths(text::max_int(width as int, 32))[0]),
{
    let widths: Vec<usize> = roster_column_widths(text::max_of(width, 32));
    col >= 1 && col - 1 < widths[0]
}

/// Five cells side by side: the third and the fourth right-aligned.
pub open spec fn five_cells(
    w: Seq<usize>,
    a: Seq<char>,
    b: Seq<char>,
    c: Seq<char>,
    d: Seq<char>,
    e: Seq<char>,
) -> Seq<char> {
    fit::left(a, w[0] as int) + " "@ + fit::left(b, w[1] as int) + " "@ + fit::right(
        c,
        w[2] as int,
    ) + " "@ + fit::right(d, w[3] as int) + " "@ + fit::left(e, w[4] as int)
}

pub fn cells(w: &Vec<usize>, a: &str, b: &str, c: &str, d: &str, e: &str) -> (r: String)
    requires
        w@.len() == 5,
    ensures
        r@ == five_cells(w@, a@, b@, c@, d@, e@),
{
    let mut out: String = fit::fit_left(a, w[0]);
    out.push_str(" ");
    out.push_str(fit::fit_left(b, w[1]).as_str());
    out.push_str(" ");
    out.push_str(fit::fit_right(c, w[2]).as_str());
    out.push_str(" ");
    out.push_str(fit::fit_right(d, w[3]).as_str());
    out.push_str(" ");
    out.push_str(fit::fit_left(e, w[4]).as_str());
    out
}

/// A line with a label in its first cell and nothing in the others.
pub open spec fn label_line(w: Seq<usize>, marker: Seq<char>, label: Seq<char>) -> Seq<char> {
    marker + five_cells(w, label, ""@, ""@, ""@, ""@)
}

fn labelled(w: &Vec<usize>, marker: &str, label: &str) -> (r: String)
    requires
        w@.len() == 5,
    ensures
        r@ == label_line(w@, marker@, label@),
{
    text::cat2(marker, cells(w, label, "", "", "", "").as_str())
}

/// A horizontal rule of at most 240 characters.
pub open spec fn rule(width: int) -> Seq<char> {
    text::fill('─', text::min_int(width, 240) as nat)
}

pub fn rule_line(width: usize) -> (r: String)
    ensures
        r@ == rule(width as int),
{
    text::filled('─', text::min_of(width, 240))
}

/// A line on whether a back end is there and in use.
pub open spec fn backend_line(name: Seq<char>, primary: Seq<char>, active: bool) -> Seq<char> {
    "  "@ + padded_name(name, 7) + "  "@ + primary + "  "@ + (if active {
        "active"@
    } else {
        "idle"@
    })
}

/// A name padded with spaces to `width` characters, never cut.
pub open spec fn padded_name(name: Seq<char>, width: int) -> Seq<char> {
    name + text::fill(' ', text::monus(width, name.len() as int) as nat)
}

pub fn pad_name(name: &str, width: usize) -> (r: String)
    ensures
        r@ == padded_name(name@, width as int),
{
    let pad: String = text::filled(' ', text::minus(width, text::length(name)));
    text::cat2(name, pad.as_str())
}

pub fn roster_backend_line(name: &str, primary: &str, active: bool) -> (r: String)
    ensures
        r@ == backend_line(name@, primary@, active),
{
    let padded: String = pad_name(name, 7);
    text::cat6(
        "  ",
        padded.as_str(),
        "  ",
        primary,
        "  ",
        if active {
            "active"
        } else {
            "idle"
        },
    )
}

pub open spec fn some_kind(st: AppState, kind: AgentLaneKind) -> bool {
    exists|i: int|
        0 <= i < st.agents.agents@.len() && (#[trigger] st.agents.agents@[i]).kind == kind
}

pub fn has_kind(st: &AppState, kind: AgentLaneKind) -> (r: bool)
    ensures
        r == some_kind(*st, kind),
{
    let mut i: usize = 0;
    while i < st.agents.agents.len()
        invariant
            i <= st.agents.agents@.len(),
            forall|j: int| 0 <= j < i ==> (#[trigger] st.agents.agents@[j]).kind != kind,
        decreases st.agents.agents@.len() - i,
    {
        if st.agents.agents[i].kind == kind {
            return true;
        }
        i += 1;
    }
    false
}

/// A remote back end is there where its program is installed or one of its agents is.
pub open spec fn remote_line(name: Seq<char>, available: bool) -> Seq<char> {
    backend_line(
        name,
        if available {
            "available"@
        } else {
            "not found"@
        },
        available,
    )
}

fn remote(name: &str, available: bool) -> (r: String)
    ensures
        r@ == remote_line(name@, available),
{
    roster_backend_line(
        name,
        if available {
            "available"
        } else {
            "not found"
        },
        available,
    )
}

/// The lines above the agents: the back ends, the choices for a swarm and the table's header.
pub open spec fn header_lines(st: AppState, width: int) -> Seq<Seq<char>> {
    let w: Seq<usize> = roster_widths(width);
    seq![
        " Backends"@,
        remote_line(
            group_label(st, AgentLaneKind::Codex),
            st.agents.codex_cli_available || some_kind(st, AgentLaneKind::Codex),
        ),
        remote_line(
            group_label(st, AgentLaneKind::Claude),
            st.agents.claude_cli_available || some_kind(st, AgentLaneKind::Claude),
        ),
        remote_line(
            group_label(st, AgentLaneKind::Gemini),
            st.agents.gemini_cli_available || some_kind(st, AgentLaneKind::Gemini),
        ),
        backend_line(group_label(st, AgentLaneKind::Mock), "built-in"@, some_kind(st, AgentLaneKind::Mock)),
        Seq::empty(),
        ROSTER_SWARM_TEMPLATE_LINE@,
        ROSTER_SWARM_MISSION_LINE@,
        Seq::empty(),
        " "@ + five_cells(w, "PRI+ROLE"@, "STATUS"@, "HB"@, "Q"@, "MISSION"@),
        rule(width),
    ]
}

fn roster_header(st: &AppState, width: usize, w: &Vec<usize>) -> (r: Vec<String>)
    requires
        w@ == roster_widths(width as int),
        w@.len() == 5,
    ensures
        text::texts(r@) == header_lines(*st, width as int),
{
    let mut out: Vec<String> = Vec::new();
    out.push(text::copy(" Backends"));
    out.push(
        remote(
            roster_backend_group_label(st, AgentLaneKind::Codex),
            st.agents.codex_cli_available || has_kind(st, AgentLaneKind::Codex),
        ),
    );
    out.push(
        remote(
            roster_backend_group_label(st, AgentLaneKind::Claude),
            st.agents.claude_cli_available || has_kind(st, AgentLaneKind::Claude),
        ),
    );
    out.push(
        remote(
            roster_backend_group_label(st, AgentLaneKind::Gemini),
            st.agents.gemini_cli_available || has_kind(st, AgentLaneKind::Gemini),
        ),
    );
    out.push(
        roster_backend_line(
            roster_backend_group_label(st, AgentLaneKind::Mock),
            "built-in",
            has_kind(st, AgentLaneKind::Mock),
        ),
    );
    out.push(String::new());
    out.push(text::copy(ROSTER_SWARM_TEMPLATE_LINE));
    out.push(text::copy(ROSTER_SWARM_MISSION_LINE));
    out.push(String::new());
    out.push(
        text::cat2(" ", cells(w, "PRI+ROLE", "STATUS", "HB", "Q", "MISSION").as_str()),
    );
    out.push(rule_line(width));
    assert(text::texts(out@) =~= header_lines(*st, width as int));
    out
}

/// The line of the templates among the lines of the roster.
pub fn roster_swarm_template_line_idx(st: &AppState) -> (r: usize)
    ensures
        r == 6,
{
    6
}

/// The line of the missions among the lines of the roster.
pub fn roster_swarm_mission_line_idx(st: &AppState) -> (r: usize)
    ensures
        r == 7,
{
    7
}

/// The first line of the agents among the lines of the roster.
pub fn roster_body_offset(st: &AppState) -> (r: usize)
    ensures
        r == 11,
{
    11
}

/// The lines that the header announces are where it says: the templates, the missions, the
/// table's header with its rule, and the agents right behind it.
pub proof fn header_is_where_it_says(st: AppState, width: int)
    ensures
        header_lines(st, width).len() == 11,
        header_lines(st, width)[6] == ROSTER_SWARM_TEMPLATE_LINE@,
        header_lines(st, width)[7] == ROSTER_SWARM_MISSION_LINE@,
        header_lines(st, width)[10] == rule(width),
{
}

/// Whether agents are given roles by hand: in swarms of the bulk and the parallel template.
pub open spec fn roles_shown(st: AppState) -> bool {
    let template: Seq<char> = text::lowered_text(st.agents.swarm_default_template@);
    template == "bulk"@ || template == "parallel"@
}

fn show_roles(st: &AppState) -> (r: bool)
    ensures
        r == roles_shown(*st),
{
    let template: String = text::lower_of(st.agents.swarm_default_template.as_str());
    text::str_eq(template.as_str(), "bulk") || text::str_eq(template.as_str(), "parallel")
}

/// The sizes that an agent can be set to.
pub open spec fn efforts(st: AppState, id: Seq<char>) -> Seq<String> {
    match state::value_of(st.agents.codex_supported_reasoning_efforts@, id) {
        Some(v) => v@,
        None => match state::value_of(st.agents.claude_supported_efforts@, id) {
            Some(v) => v@,
            None => Seq::empty(),
        },
    }
}

pub fn efforts_of<'a>(st: &'a AppState, id: &str) -> (r: Option<&'a Vec<String>>)
    ensures
        match r {
            Some(v) => v@ == efforts(*st, id@),
            None => efforts(*st, id@) == Seq::<String>::empty(),
        },
{
    match state::lookup(&st.agents.codex_supported_reasoning_efforts, id) {
        Some(v) => Some(v),
        None => state::lookup(&st.agents.claude_supported_efforts, id),
    }
}

/// Whether the choices under an agent are shown: under the selected one, unless it is a copy or
/// folded up. `fold_chat` says whether chat copies count as copies here.
pub open spec fn unfolded(st: AppState, idx: int, fold_chat: bool) -> bool {
    let agent: AgentLane = st.agents.agents@[idx];
    &&& idx == st.agents.roster_selected
    &&& clone_labels::clone_tail(agent.id@) is None
    &&& !(fold_chat && agent.chat_clone)
    &&& !state::listed(st.agents.roster_tree_collapsed_agent_ids@, agent.id@)
}

fn is_unfolded(st: &AppState, idx: usize, fold_chat: bool) -> (r: bool)
    requires
        idx < st.agents.agents@.len(),
    ensures
        r == unfolded(*st, idx as int, fold_chat),
{
    let agent: &AgentLane = &st.agents.agents[idx];
    idx == st.agents.roster_selected && !clone_labels::is_swarm_clone_agent_id(agent.id.as_str())
        && !(fold_chat && agent.chat_clone) && !state::contains_text(
        &st.agents.roster_tree_collapsed_agent_ids,
        agent.id.as_str(),
    )
}

pub open spec fn node(idx: usize, node: RosterBodyNode) -> RosterBodyMeta {
    RosterBodyMeta { agent_idx: Some(idx), node }
}

/// The lines of `count` choices under their heading.
pub open spec fn branch_nodes(idx: usize, branch: RosterTreeBranch, count: nat) -> Seq<
    RosterBodyMeta,
> {
    seq![node(idx, RosterBodyNode::Branch { branch })] + Seq::new(
        count,
        |i: int| node(idx, RosterBodyNode::Leaf { branch, leaf_idx: i as usize }),
    )
}

/// The lines of one agent: its own and, where it is unfolded, those of its sizes and roles.
pub open spec fn agent_nodes(st: AppState, idx: usize, fold_chat: bool) -> Seq<RosterBodyMeta> {
    let agent: AgentLane = st.agents.agents@[idx as int];
    let own: Seq<RosterBodyMeta> = seq![node(idx, RosterBodyNode::Agent)];
    if unfolded(st, idx as int, fold_chat) {
        let sizes: Seq<String> = efforts(st, agent.id@);
        let with_sizes: Seq<RosterBodyMeta> = if sizes.len() > 0 {
            own + branch_nodes(idx, RosterTreeBranch::Size, sizes.len())
        } else {
            own
        };
        if roles_shown(st) && (agent.codex() || agent.claude()) {
            with_sizes + branch_nodes(idx, RosterTreeBranch::Role, 8)
        } else {
            with_sizes
        }
    } else {
        own
    }
}

pub open spec fn agents_nodes(st: AppState, found: Seq<usize>, fold_chat: bool, n: int) -> Seq<
    RosterBodyMeta,
>
    decreases n,
{
    if n <= 0 {
        Seq::empty()
    } else {
        agents_nodes(st, found, fold_chat, n - 1) + agent_nodes(st, found[n - 1], fold_chat)
    }
}

/// The lines of the first `n` groups: each back end and, where it is open, its agents.
pub open spec fn nodes_upto(st: AppState, fold_chat: bool, n: int) -> Seq<RosterBodyMeta>
    decreases n,
{
    if n <= 0 {
        Seq::empty()
    } else {
        let group: (AgentLaneKind, Seq<usize>) = roster::groups(st)[n - 1];
        let with: Seq<RosterBodyMeta> = nodes_upto(st, fold_chat, n - 1).push(
            RosterBodyMeta {
                agent_idx: None,
                node: RosterBodyNode::Backend { backend: group.0 },
            },
        );
        if roster::expanded(st, group.0) {
            with + agents_nodes(st, group.1, fold_chat, group.1.len() as int)
        } else {
            with
        }
    }
}

/// What the lines of the roster's body stand for, from top to bottom.
pub open spec fn body_nodes(st: AppState, fold_chat: bool) -> Seq<RosterBodyMeta> {
    nodes_upto(st, fold_chat, roster::groups(st).len() as int)
}

fn push_branch(
    out: &mut Vec<RosterBodyMeta>,
    idx: usize,
    branch: RosterTreeBranch,
    count: usize,
)
    ensures
        final(out)@ == old(out)@ + branch_nodes(idx, branch, count as nat),
{
    let ghost start: Seq<RosterBodyMeta> = out@;
    out.push(RosterBodyMeta { agent_idx: Some(idx), node: RosterBodyNode::Branch { branch } });
    let mut i: usize = 0;
    assert(out@ =~= start + branch_nodes(idx, branch, 0));
    while i < count
        invariant
            i <= count,
            out@ == start + branch_nodes(idx, branch, i as nat),
        decreases count - i,
    {
        out.push(
            RosterBodyMeta {
                agent_idx: Some(idx),
                node: RosterBodyNode::Leaf { branch, leaf_idx: i },
            },
        );
        i += 1;
        assert(out@ =~= start + branch_nodes(idx, branch, i as nat));
    }
}

fn push_agent(out: &mut Vec<RosterBodyMeta>, st: &AppState, idx: usize, fold_chat: bool)
    requires
        idx < st.agents.agents@.len(),
    ensures
        final(out)@ == old(out)@ + agent_nodes(*st, idx, fold_chat),
{
    let ghost start: Seq<RosterBodyMeta> = out@;
    out.push(RosterBodyMeta { agent_idx: Some(idx), node: RosterBodyNode::Agent });
    let ghost own: Seq<RosterBodyMeta> = seq![node(idx, RosterBodyNode::Agent)];
    assert(out@ =~= start + own);
    if is_unfolded(st, idx, fold_chat) {
        let agent: &AgentLane = &st.agents.agents[idx];
        let count: usize = match efforts_of(st, agent.id.as_str()) {
            Some(v) => v.len(),
            None => 0,
        };
        if count > 0 {
            push_branch(out, idx, RosterTreeBranch::Size, count);
            assert(out@ =~= start + (own + branch_nodes(
                idx,
                RosterTreeBranch::Size,
                count as nat,
            )));
        }
        if show_roles(st) && (agent.is_codex() || agent.is_claude()) {
            let ghost before: Seq<RosterBodyMeta> = out@;
            push_branch(out, idx, RosterTreeBranch::Role, 8);
            assert(out@ =~= start + agent_nodes(*st, idx, fold_chat));
        }
    }
}

proof fn members_are_agents(agents: Seq<AgentLane>, kind: AgentLaneKind, n: int, i: int)
    requires
        0 <= n <= agents.len() <= usize::MAX,
        0 <= i < roster::members_upto(agents, kind, n).len(),
    ensures
        roster::members_upto(agents, kind, n)[i] < agents.len(),
    decreases n,
{
    if n > 0 {
        if i < roster::members_upto(agents, kind, n - 1).len() {
            members_are_agents(agents, kind, n - 1, i);
        }
    }
}

proof fn groups_are_members(st: AppState, n: int, i: int)
    requires
        0 <= n <= 5,
        0 <= i < roster::groups_upto(st, n).len(),
    ensures
        roster::groups_upto(st, n)[i].1 == roster::members(st, roster::groups_upto(st, n)[i].0),
    decreases n,
{
    if n > 0 && i < roster::groups_upto(st, n - 1).len() {
        groups_are_members(st, n - 1, i);
    }
}

/// What the lines of the roster's body stand for, from top to bottom.
pub fn roster_body_nodes(st: &AppState, fold_chat: bool) -> (r: Vec<RosterBodyMeta>)
    ensures
        r@ == body_nodes(*st, fold_chat),
{
    let grouped: Vec<(AgentLaneKind, Vec<usize>)> = roster::roster_grouped_agent_indices(st);
    let total: usize = st.agents.agents.len();
    let mut out: Vec<RosterBodyMeta> = Vec::new();
    let mut i: usize = 0;
    while i < grouped.len()
        invariant
            i <= grouped@.len(),
            total == st.agents.agents@.len(),
            roster::groups_view(grouped@) == roster::groups(*st),
            out@ == nodes_upto(*st, fold_chat, i as int),
        decreases grouped@.len() - i,
    {
        let ghost group: (AgentLaneKind, Seq<usize>) = roster::groups(*st)[i as int];
        assert(group == (grouped@[i as int].0, grouped@[i as int].1@));
        let backend: AgentLaneKind = grouped[i].0;
        out.push(
            RosterBodyMeta { agent_idx: None, node: RosterBodyNode::Backend { backend } },
        );
        if roster::roster_backend_is_expanded(st, backend) {
            let found: &Vec<usize> = &grouped[i].1;
            let ghost start: Seq<RosterBodyMeta> = out@;
            let mut k: usize = 0;
            proof {
                groups_are_members(*st, 5, i as int);
                assert(start + agents_nodes(*st, found@, fold_chat, 0) =~= start);
            }
            while k < found.len()
                invariant
                    k <= found@.len(),
                    total == st.agents.agents@.len(),
                    found@ == roster::members(*st, backend),
                    out@ == start + agents_nodes(*st, found@, fold_chat, k as int),
                decreases found@.len() - k,
            {
                proof {
                    members_are_agents(
                        st.agents.agents@,
                        backend,
                        st.agents.agents@.len() as int,
                        k as int,
                    );
                }
                push_agent(&mut out, st, found[k], fold_chat);
                assert(out@ =~= start + agents_nodes(*st, found@, fold_chat, k + 1));
                k += 1;
            }
        }
        i += 1;
    }
    out
}

/// What a line of the roster's body stands for.
pub fn roster_meta_for_body_line(st: &AppState, body_line: usize) -> (r: Option<RosterBodyMeta>)
    ensures
        r == (if body_line < body_nodes(*st, false).len() {
            Some(body_nodes(*st, false)[body_line as int])
        } else {
            None
        }),
{
    let nodes: Vec<RosterBodyMeta> = roster_body_nodes(st, false);
    if body_line < nodes.len() {
        Some(nodes[body_line])
    } else {
        None
    }
}

/// The roles that can be given by hand.
pub open spec fn role_options() -> Seq<Seq<char>> {
    seq![
        "all"@,
        "propose"@,
        "research"@,
        "computational-research"@,
        "judge"@,
        "integrate"@,
        "review"@,
        "test"@,
    ]
}

pub fn role_option(i: usize) -> (r: &'static str)
    requires
        i < 8,
    ensures
        r@ == role_options()[i as int],
{
    match i {
        0 => "all",
        1 => "propose",
        2 => "research",
        3 => "computational-research",
        4 => "judge",
        5 => "integrate",
        6 => "review",
        _ => "test",
    }
}

/// What the agents of a back end are called.
pub open spec fn group_label(st: AppState, kind: AgentLaneKind) -> Seq<char> {
    match kind {
        AgentLaneKind::Codex => "Codex"@,
        AgentLaneKind::Claude => st.agents.claude_label@,
        AgentLaneKind::Gemini => "Gemini"@,
        AgentLaneKind::Mock => "Local"@,
        AgentLaneKind::Unknown => "Other"@,
    }
}

pub fn roster_backend_group_label(st: &AppState, kind: AgentLaneKind) -> (r: &str)
    ensures
        r@ == group_label(*st, kind),
{
    match kind {
        AgentLaneKind::Codex => "Codex",
        AgentLaneKind::Claude => st.agents.claude_label.as_str(),
        AgentLaneKind::Gemini => "Gemini",
        AgentLaneKind::Mock => "Local",
        AgentLaneKind::Unknown => "Other",
    }
}

/// The size that an agent is set to.
pub open spec fn chosen_effort(st: AppState, id: Seq<char>) -> Option<Seq<char>> {
    let selected: Option<String> = state::value_of(
        st.agents.codex_selected_reasoning_effort@,
        id,
    );
    let default: Option<String> = state::value_of(st.agents.codex_default_reasoning_effort@, id);
    let other: Option<String> = state::value_of(st.agents.claude_selected_effort@, id);
    if selected is Some {
        text::opt_text(selected)
    } else if default is Some {
        text::opt_text(default)
    } else if other is Some {
        text::opt_text(other)
    } else {
        text::opt_text(state::value_of(st.agents.claude_default_effort@, id))
    }
}

pub fn effort_of<'a>(st: &'a AppState, id: &str) -> (r: Option<&'a String>)
    ensures
        match r {
            Some(s) => chosen_effort(*st, id@) == Some(s@),
            None => chosen_effort(*st, id@) is None,
        },
{
    match state::lookup(&st.agents.codex_selected_reasoning_effort, id) {
        Some(s) => Some(s),
        None => match state::lookup(&st.agents.codex_default_reasoning_effort, id) {
            Some(s) => Some(s),
            None => match state::lookup(&st.agents.claude_selected_effort, id) {
                Some(s) => Some(s),
                None => state::lookup(&st.agents.claude_default_effort, id),
            },
        },
    }
}

/// The role that an agent was given by hand; all of them where it was given none.
pub open spec fn chosen_role(st: AppState, id: Seq<char>) -> Seq<char> {
    let given: Seq<char> = match state::value_of(st.agents.swarm_role_by_agent_id@, id) {
        Some(s) => text::lowered_text(text::trimmed(s@)),
        None => Seq::empty(),
    };
    clone_labels::role_hint(
        st.agents.role_names@,
        if given.len() > 0 {
            given
        } else {
            "all"@
        },
    )
}

fn role_of(st: &AppState, id: &str) -> (r: String)
    ensures
        r@ == chosen_role(*st, id@),
{
    let given: String = match state::lookup(&st.agents.swarm_role_by_agent_id, id) {
        Some(s) => {
            let bare: String = text::trim(s.as_str());
            text::lower_of(bare.as_str())
        },
        None => String::new(),
    };
    if text::length(given.as_str()) > 0 {
        clone_labels::normalize_roster_role_hint(&st.agents.role_names, given.as_str())
    } else {
        clone_labels::normalize_roster_role_hint(&st.agents.role_names, "all")
    }
}

/// The roles of a swarm copy, from the dashboard of its mission.
pub open spec fn clone_roles(
    st: AppState,
    swarm: Option<&SwarmRuntime>,
    id: Seq<char>,
) -> Option<Seq<char>> {
    match swarm {
        Some(s) => match clone_labels::clone_parts(id) {
            Some(ms) => match state::value_of(s.dashboards@, ms.0) {
                Some(d) => clone_labels::assigned_roles(st.agents.role_names@, d, id),
                None => None,
            },
            None => None,
        },
        None => None,
    }
}

fn clone_roles_of(st: &AppState, swarm: Option<&SwarmRuntime>, id: &str) -> (r: Option<String>)
    ensures
        text::opt_text(r) == clone_roles(*st, swarm, id@),
{
    match swarm {
        Some(s) => match clone_labels::swarm_clone_label_parts(id) {
            Some(ms) => match state::lookup(&s.dashboards, ms.0.as_str()) {
                Some(d) => clone_labels::swarm_assigned_roles_for_agent(
                    &st.agents.role_names,
                    d,
                    id,
                ),
                None => None,
            },
            None => None,
        },
        None => None,
    }
}

/// The first cell of an agent: its priority and its role, or what it is a copy of.
pub open spec fn role_cell(st: AppState, swarm: Option<&SwarmRuntime>, agent: AgentLane) -> Seq<
    char,
> {
    let names: Seq<Entry<String>> = st.agents.role_names@;
    let under: Seq<char> = "    "@ + seq![glyphs::arrow_glyph(st.ascii_fallback)] + " "@;
    if clone_labels::clone_tail(agent.id@) is Some {
        let label: Option<Seq<char>> = clone_labels::display_label(
            names,
            agent.id@,
            clone_roles(st, swarm, agent.id@),
        );
        under + (match label {
            Some(l) => l,
            None => "swarm clone"@,
        })
    } else if agent.chat_clone {
        under + clone_labels::role_label(names, agent.role@)
    } else {
        (if agent.swarm_priority {
            if state::listed(st.agents.swarm_priority_agent_ids@, agent.id@) {
                "[x] "@
            } else {
                "[ ] "@
            }
        } else {
            "    "@
        }) + clone_labels::role_label(names, agent.role@)
    }
}

fn role_cell_of(st: &AppState, swarm: Option<&SwarmRuntime>, agent: &AgentLane) -> (r: String)
    ensures
        r@ == role_cell(*st, swarm, *agent),
{
    let arrow: String = glyphs::one(glyphs::arrow_glyph(st.ascii_fallback));
    let under: String = text::cat3("    ", arrow.as_str(), " ");
    if clone_labels::is_swarm_clone_agent_id(agent.id.as_str()) {
        let roles: Option<String> = clone_roles_of(st, swarm, agent.id.as_str());
        let label: Option<String> = clone_labels::swarm_clone_display_label(
            &st.agents.role_names,
            agent.id.as_str(),
            state::as_str(&roles),
        );
        match label {
            Some(l) => text::cat2(under.as_str(), l.as_str()),
            None => text::cat2(under.as_str(), "swarm clone"),
        }
    } else if agent.chat_clone {
        let role: String = clone_labels::table_role_label(
            &st.agents.role_names,
            agent.role.as_str(),
        );
        text::cat2(under.as_str(), role.as_str())
    } else {
        let role: String = clone_labels::table_role_label(
            &st.agents.role_names,
            agent.role.as_str(),
        );
        let prefix: &str = if agent.swarm_priority {
            if state::contains_text(&st.agents.swarm_priority_agent_ids, agent.id.as_str()) {
                "[x] "
            } else {
                "[ ] "
            }
        } else {
            "    "
        };
        text::cat2(prefix, role.as_str())
    }
}

/// The line of an agent.
pub open spec fn agent_line(
    st: AppState,
    swarm: Option<&SwarmRuntime>,
    w: Seq<usize>,
    idx: usize,
) -> Seq<char> {
    let agent: AgentLane = st.agents.agents@[idx as int];
    let at_cursor: bool = roster::selected(st) == Some(
        RosterSelectableRow::Agent { agent_idx: idx },
    ) && st.agents.roster_tree_selected is None;
    seq![
        if at_cursor {
            glyphs::cursor_glyph(st.ascii_fallback)
        } else {
            glyphs::arrow_glyph(st.ascii_fallback)
        },
    ] + five_cells(
        w,
        role_cell(st, swarm, agent),
        agent.status_label@,
        text::decimal(agent.heartbeat_age_secs as nat) + "s"@,
        text::decimal(agent.queue_len as nat),
        match agent.current_mission {
            Some(m) => m@,
            None => "--"@,
        },
    )
}

/// The line of one choice: its marker, whether it is chosen, and its name.
pub open spec fn choice_line(
    st: AppState,
    w: Seq<usize>,
    at: RosterTreeSelection,
    checked: bool,
    name: Seq<char>,
) -> Seq<char> {
    label_line(
        w,
        seq![
            if st.agents.roster_tree_selected == Some(at) {
                glyphs::cursor_glyph(st.ascii_fallback)
            } else {
                ' '
            },
        ],
        "      "@ + seq![glyphs::arrow_glyph(st.ascii_fallback)] + (if checked {
            " [x] "@
        } else {
            " [ ] "@
        }) + name,
    )
}

/// The line of a node of the roster's body.
pub open spec fn node_line(
    st: AppState,
    swarm: Option<&SwarmRuntime>,
    w: Seq<usize>,
    meta: RosterBodyMeta,
) -> Seq<char> {
    match (meta.node, meta.agent_idx) {
        (RosterBodyNode::Backend { backend }, _) => label_line(
            w,
            seq![
                if roster::selected(st) == Some(RosterSelectableRow::Backend { backend }) {
                    glyphs::cursor_glyph(st.ascii_fallback)
                } else {
                    ' '
                },
            ],
            seq![
                if roster::expanded(st, backend) {
                    glyphs::tree_open_glyph(st.ascii_fallback)
                } else {
                    glyphs::tree_closed_glyph(st.ascii_fallback)
                },
            ] + " "@ + group_label(st, backend),
        ),
        (RosterBodyNode::Agent, Some(idx)) => agent_line(st, swarm, w, idx),
        (RosterBodyNode::Branch { branch }, _) => label_line(
            w,
            " "@,
            "    "@ + seq![glyphs::arrow_glyph(st.ascii_fallback)] + (match branch {
                RosterTreeBranch::Size => " Size"@,
                RosterTreeBranch::Role => " Role"@,
            }),
        ),
        (RosterBodyNode::Leaf { branch, leaf_idx }, Some(idx)) => {
            let id: Seq<char> = st.agents.agents@[idx as int].id@;
            let at: RosterTreeSelection = RosterTreeSelection { branch, leaf_idx };
            match branch {
                RosterTreeBranch::Size => {
                    let effort: Seq<char> = efforts(st, id)[leaf_idx as int]@;
                    choice_line(st, w, at, chosen_effort(st, id) == Some(effort), effort)
                },
                RosterTreeBranch::Role => {
                    let role: Seq<char> = role_options()[leaf_idx as int];
                    choice_line(
                        st,
                        w,
                        at,
                        chosen_role(st, id) == clone_labels::role_hint(
                            st.agents.role_names@,
                            role,
                        ),
                        if leaf_idx == 0 {
                            "All"@
                        } else {
                            role
                        },
                    )
                },
            }
        },
        (_, None) => Seq::empty(),
    }
}

fn choice(
    st: &AppState,
    w: &Vec<usize>,
    at: RosterTreeSelection,
    checked: bool,
    name: &str,
) -> (r: String)
    requires
        w@.len() == 5,
    ensures
        r@ == choice_line(*st, w@, at, checked, name@),
{
    let here: bool = match st.agents.roster_tree_selected {
        Some(s) => s == at,
        None => false,
    };
    let marker: String = glyphs::one(
        if here {
            glyphs::cursor_glyph(st.ascii_fallback)
        } else {
            ' '
        },
    );
    let arrow: String = glyphs::one(glyphs::arrow_glyph(st.ascii_fallback));
    let label: String = text::cat4(
        "      ",
        arrow.as_str(),
        if checked {
            " [x] "
        } else {
            " [ ] "
        },
        name,
    );
    labelled(w, marker.as_str(), label.as_str())
}

/// Whether a node speaks of an agent and a choice that are there.
pub open spec fn sound(st: AppState, meta: RosterBodyMeta) -> bool {
    match (meta.node, meta.agent_idx) {
        (RosterBodyNode::Backend { .. }, _) => true,
        (RosterBodyNode::Leaf { branch, leaf_idx }, Some(idx)) => idx < st.agents.agents@.len()
            && (match branch {
            RosterTreeBranch::Size => leaf_idx < efforts(
                st,
                st.agents.agents@[idx as int].id@,
            ).len(),
            RosterTreeBranch::Role => leaf_idx < 8,
        }),
        (_, Some(idx)) => idx < st.agents.agents@.len(),
        (_, None) => false,
    }
}

fn draw_node(
    st: &AppState,
    swarm: Option<&SwarmRuntime>,
    w: &Vec<usize>,
    meta: RosterBodyMeta,
    selected: Option<RosterSelectableRow>,
) -> (r: String)
    requires
        w@.len() == 5,
        sound(*st, meta),
        selected == roster::selected(*st),
    ensures
        r@ == node_line(*st, swarm, w@, meta),
{
    match meta.node {
        RosterBodyNode::Backend { backend } => {
            let here: bool = match selected {
                Some(row) => row == (RosterSelectableRow::Backend { backend }),
                None => false,
            };
            let marker: String = glyphs::one(
                if here {
                    glyphs::cursor_glyph(st.ascii_fallback)
                } else {
                    ' '
                },
            );
            let tree: String = glyphs::one(
                if roster::roster_backend_is_expanded(st, backend) {
                    glyphs::tree_open_glyph(st.ascii_fallback)
                } else {
                    glyphs::tree_closed_glyph(st.ascii_fallback)
                },
            );
            let label: String = text::cat3(
                tree.as_str(),
                " ",
                roster_backend_group_label(st, backend),
            );
            labelled(w, marker.as_str(), label.as_str())
        },
        RosterBodyNode::Branch { branch } => {
            let arrow: String = glyphs::one(glyphs::arrow_glyph(st.ascii_fallback));
            let label: String = text::cat3(
                "    ",
                arrow.as_str(),
                match branch {
                    RosterTreeBranch::Size => " Size",
                    RosterTreeBranch::Role => " Role",
                },
            );
            labelled(w, " ", label.as_str())
        },
        RosterBodyNode::Agent => match meta.agent_idx {
            Some(idx) => {
                let agent: &AgentLane = &st.agents.agents[idx];
                let here: bool = match selected {
                    Some(row) => row == (RosterSelectableRow::Agent { agent_idx: idx }),
                    None => false,
                };
                let marker: String = glyphs::one(
                    if here && st.agents.roster_tree_selected.is_none() {
                        glyphs::cursor_glyph(st.ascii_fallback)
                    } else {
                        glyphs::arrow_glyph(st.ascii_fallback)
                    },
                );
                let role: String = role_cell_of(st, swarm, agent);
                let age: String = text::cat2(
                    text::decimal_u64(agent.heartbeat_age_secs).as_str(),
                    "s",
                );
                let queue: String = text::decimal_usize(agent.queue_len);
                let mission: &str = match &agent.current_mission {
                    Some(m) => m.as_str(),
                    None => "--",
                };
                let rest: String = cells(
                    w,
                    role.as_str(),
                    agent.status_label.as_str(),
                    age.as_str(),
                    queue.as_str(),
                    mission,
                );
                text::cat2(marker.as_str(), rest.as_str())
            },
            None => String::new(),
        },
        RosterBodyNode::Leaf { branch, leaf_idx } => match meta.agent_idx {
            Some(idx) => {
                let id: &str = st.agents.agents[idx].id.as_str();
                let at: RosterTreeSelection = RosterTreeSelection { branch, leaf_idx };
                match branch {
                    RosterTreeBranch::Size => match efforts_of(st, id) {
                        Some(v) => {
                            let effort: &str = v[leaf_idx].as_str();
                            let checked: bool = match effort_of(st, id) {
                                Some(chosen) => text::str_eq(chosen.as_str(), effort),
                                None => false,
                            };
                            choice(st, w, at, checked, effort)
                        },
                        None => String::new(),
                    },
                    RosterTreeBranch::Role => {
                        let role: &str = role_option(leaf_idx);
                        let chosen: String = role_of(st, id);
                        let hint: String = clone_labels::normalize_roster_role_hint(
                            &st.agents.role_names,
                            role,
                        );
                        let checked: bool = text::str_eq(chosen.as_str(), hint.as_str());
                        choice(
                            st,
                            w,
                            at,
                            checked,
                            if leaf_idx == 0 {
                                "All"
                            } else {
                                role
                            },
                        )
                    },
                }
            },
            None => String::new(),
        },
    }
}

proof fn agent_nodes_sound(st: AppState, idx: usize, fold_chat: bool)
    requires
        idx < st.agents.agents@.len(),
        efforts(st, st.agents.agents@[idx as int].id@).len() <= usize::MAX,
    ensures
        forall|i: int|
            0 <= i < agent_nodes(st, idx, fold_chat).len() ==> sound(
                st,
                #[trigger] agent_nodes(st, idx, fold_chat)[i],
            ),
{
}

proof fn efforts_fit(st: AppState, id: Seq<char>)
    ensures
        efforts(st, id).len() <= usize::MAX,
{
    match state::value_of(st.agents.codex_supported_reasoning_efforts@, id) {
        Some(v) => {
            assert(v.len() <= usize::MAX);
        },
        None => match state::value_of(st.agents.claude_supported_efforts@, id) {
            Some(v) => {
                assert(v.len() <= usize::MAX);
            },
            None => {},
        },
    }
}

proof fn agents_nodes_sound(
    st: AppState,
    kind: AgentLaneKind,
    found: Seq<usize>,
    fold_chat: bool,
    n: int,
)
    requires
        st.agents.agents@.len() <= usize::MAX,
        found == roster::members(st, kind),
        0 <= n <= found.len(),
    ensures
        forall|i: int|
            0 <= i < agents_nodes(st, found, fold_chat, n).len() ==> sound(
                st,
                #[trigger] agents_nodes(st, found, fold_chat, n)[i],
            ),
    decreases n,
{
    if n > 0 {
        agents_nodes_sound(st, kind, found, fold_chat, n - 1);
        members_are_agents(st.agents.agents@, kind, st.agents.agents@.len() as int, n - 1);
        let idx: usize = found[n - 1];
        efforts_fit(st, st.agents.agents@[idx as int].id@);
        agent_nodes_sound(st, idx, fold_chat);
        let before: Seq<RosterBodyMeta> = agents_nodes(st, found, fold_chat, n - 1);
        let all: Seq<RosterBodyMeta> = agents_nodes(st, found, fold_chat, n);
        assert forall|i: int| 0 <= i < all.len() implies sound(st, #[trigger] all[i]) by {
            if i < before.len() {
                assert(sound(st, before[i]));
            } else {
                assert(sound(st, agent_nodes(st, idx, fold_chat)[i - before.len()]));
            }
        }
    }
}

/// Every line of the body speaks of an agent and a choice that are there.
pub proof fn body_nodes_are_sound(st: AppState, fold_chat: bool, n: int)
    requires
        st.agents.agents@.len() <= usize::MAX,
        0 <= n <= roster::groups(st).len(),
    ensures
        forall|i: int|
            0 <= i < nodes_upto(st, fold_chat, n).len() ==> sound(
                st,
                #[trigger] nodes_upto(st, fold_chat, n)[i],
            ),
    decreases n,
{
    if n > 0 {
        body_nodes_are_sound(st, fold_chat, n - 1);
        let group: (AgentLaneKind, Seq<usize>) = roster::groups(st)[n - 1];
        groups_are_members(st, 5, n - 1);
        let under: Seq<RosterBodyMeta> = agents_nodes(
            st,
            group.1,
            fold_chat,
            group.1.len() as int,
        );
        agents_nodes_sound(st, group.0, group.1, fold_chat, group.1.len() as int);
        let before: Seq<RosterBodyMeta> = nodes_upto(st, fold_chat, n - 1);
        let all: Seq<RosterBodyMeta> = nodes_upto(st, fold_chat, n);
        assert forall|i: int| 0 <= i < all.len() implies sound(st, #[trigger] all[i]) by {
            if i < before.len() {
                assert(sound(st, before[i]));
            } else if i > before.len() {
                assert(sound(st, under[i - before.len() - 1]));
            }
        }
    }
}

/// The lines of the roster's body.
pub open spec fn body_lines(st: AppState, swarm: Option<&SwarmRuntime>, width: int) -> Seq<
    Seq<char>,
> {
    let nodes: Seq<RosterBodyMeta> = body_nodes(st, true);
    Seq::new(nodes.len(), |i: int| node_line(st, swarm, roster_widths(width), nodes[i]))
}

/// The lines of the roster.
pub open spec fn all_lines(st: AppState, swarm: Option<&SwarmRuntime>, width: int) -> Seq<
    Seq<char>,
> {
    let head: Seq<Seq<char>> = header_lines(st, width);
    if st.agents.agents@.len() == 0 {
        head.push(" No agents available."@).push(rule(width))
    } else {
        (head + body_lines(st, swarm, width)).push(rule(width))
    }
}

pub fn roster_lines(st: &AppState, swarm: Option<&SwarmRuntime>, width: usize) -> (r: Vec<String>)
    ensures
        text::texts(r@) == all_lines(*st, swarm, width as int),
{
    broadcast use text::group_texts;

    let w: Vec<usize> = roster_column_widths(width);
    let mut out: Vec<String> = roster_header(st, width, &w);
    if st.agents.agents.len() == 0 {
        out.push(text::copy(" No agents available."));
        out.push(rule_line(width));
        return out;
    }
    let selected: Option<RosterSelectableRow> = roster::roster_selected_row(st);
    let nodes: Vec<RosterBodyMeta> = roster_body_nodes(st, true);
    proof {
        body_nodes_are_sound(*st, true, roster::groups(*st).len() as int);
    }
    let ghost head: Seq<Seq<char>> = header_lines(*st, width as int);
    let ghost body: Seq<Seq<char>> = body_lines(*st, swarm, width as int);
    let mut i: usize = 0;
    assert(text::texts(out@) =~= head + body.take(0));
    while i < nodes.len()
        invariant
            i <= nodes@.len(),
            w@ == roster_widths(width as int),
            w@.len() == 5,
            selected == roster::selected(*st),
            nodes@ == body_nodes(*st, true),
            body == body_lines(*st, swarm, width as int),
            forall|j: int| 0 <= j < nodes@.len() ==> sound(*st, #[trigger] nodes@[j]),
            text::texts(out@) == head + body.take(i as int),
        decreases nodes@.len() - i,
    {
        let line: String = draw_node(st, swarm, &w, nodes[i], selected);
        proof {
            assert(body[i as int] == line@);
            assert((head + body.take(i as int)).push(line@) =~= head + body.take(i + 1));
        }
        out.push(line);
        i += 1;
    }
    assert(body.take(nodes@.len() as int) =~= body);
    out.push(rule_line(width));
    out
}

/// What a click on a line of the roster is taken for is what the line shows, unless the selected
/// agent is a chat copy.
pub proof fn clicks_match_lines(
    st: AppState,
    swarm: Option<&SwarmRuntime>,
    width: int,
    body_line: int,
)
    requires
        st.agents.agents@.len() > 0,
        forall|i: int|
            0 <= i < st.agents.agents@.len() && i == st.agents.roster_selected
                ==> !(#[trigger] st.agents.agents@[i]).chat_clone,
        0 <= body_line < body_nodes(st, false).len(),
        st.agents.agents@.len() <= usize::MAX,
    ensures
        all_lines(st, swarm, width).len() == 11 + body_nodes(st, false).len() + 1,
        all_lines(st, swarm, width)[11 + body_line] == node_line(
            st,
            swarm,
            roster_widths(width),
            body_nodes(st, false)[body_line],
        ),
{
    nodes_agree(st, roster::groups(st).len() as int);
}

proof fn nodes_agree(st: AppState, n: int)
    requires
        st.agents.agents@.len() <= usize::MAX,
        forall|i: int|
            0 <= i < st.agents.agents@.len() && i == st.agents.roster_selected
                ==> !(#[trigger] st.agents.agents@[i]).chat_clone,
        0 <= n <= roster::groups(st).len(),
    ensures
        nodes_upto(st, true, n) == nodes_upto(st, false, n),
    decreases n,
{
    if n > 0 {
        nodes_agree(st, n - 1);
        let group: (AgentLaneKind, Seq<usize>) = roster::groups(st)[n - 1];
        groups_are_members(st, 5, n - 1);
        agents_agree(st, group.0, group.1, group.1.len() as int);
    }
}

proof fn agents_agree(st: AppState, kind: AgentLaneKind, found: Seq<usize>, n: int)
    requires
        st.agents.agents@.len() <= usize::MAX,
        forall|i: int|
            0 <= i < st.agents.agents@.len() && i == st.agents.roster_selected
                ==> !(#[trigger] st.agents.agents@[i]).chat_clone,
        found == roster::members(st, kind),
        0 <= n <= found.len(),
    ensures
        agents_nodes(st, found, true, n) == agents_nodes(st, found, false, n),
    decreases n,
{
    if n > 0 {
        agents_agree(st, kind, found, n - 1);
        members_are_agents(st.agents.agents@, kind, st.agents.agents@.len() as int, n - 1);
        let idx: usize = found[n - 1];
        assert(unfolded(st, idx as int, true) == unfolded(st, idx as int, false));
    }
}

} // verus!
