//! The roster: back ends, agents and the tree of choices under the selected agent.

use vstd::prelude::*;

use crate::state::AgentLane;
use crate::state::AgentLaneKind;
use crate::state::AppState;
use crate::state::RosterTreeBranch;

verus! {

/// What a line of the roster's body stands for.
#[derive(Clone, Copy, Debug, PartialEq, Eq, Structural)]
pub enum RosterBodyNode {
    Backend { backend: AgentLaneKind },
    Agent,
    Branch { branch: RosterTreeBranch },
    Leaf { branch: RosterTreeBranch, leaf_idx: usize },
}

/// A line of the roster that can be selected.
#[derive(Clone, Copy, Debug, PartialEq, Eq, Structural)]
pub enum RosterSelectableRow {
    Backend { backend: AgentLaneKind },
    Agent { agent_idx: usize },
}

/// A line of the roster's body: what it stands for, and for which agent.
#[derive(Clone, Copy, Debug, PartialEq, Eq, Structural)]
pub struct RosterBodyMeta {
    pub agent_idx: Option<usize>,
    pub node: RosterBodyNode,
}

/// The back end that an agent is listed under.
pub open spec fn group_of(agent: AgentLane) -> AgentLaneKind {
    agent.kind
}

pub fn roster_backend_group_for_agent(agent: &AgentLane) -> (r: AgentLaneKind)
    ensures
        r == group_of(*agent),
{
    agent.kind
}

/// Those of the first `n` agents that are listed under `kind`: all but the hidden ones.
pub open spec fn members_upto(agents: Seq<AgentLane>, kind: AgentLaneKind, n: int) -> Seq<usize>
    decreases n,
{
    if n <= 0 {
        Seq::empty()
    } else if !agents[n - 1].shadow && group_of(agents[n - 1]) == kind {
        members_upto(agents, kind, n - 1).push((n - 1) as usize)
    } else {
        members_upto(agents, kind, n - 1)
    }
}

/// The agents that are listed under `kind`, in their order.
pub open spec fn members(st: AppState, kind: AgentLaneKind) -> Seq<usize> {
    members_upto(st.agents.agents@, kind, st.agents.agents@.len() as int)
}

fn members_of(st: &AppState, kind: AgentLaneKind) -> (r: Vec<usize>)
    ensures
        r@ == members(*st, kind),
{
    let mut out: Vec<usize> = Vec::new();
    let mut i: usize = 0;
    while i < st.agents.agents.len()
        invariant
            i <= st.agents.agents@.len(),
            out@ == members_upto(st.agents.agents@, kind, i as int),
        decreases st.agents.agents@.len() - i,
    {
        let agent: &AgentLane = &st.agents.agents[i];
        if !agent.shadow && roster_backend_group_for_agent(agent) == kind {
            out.push(i);
        }
        i += 1;
    }
    out
}

/// The back ends in the order of the roster.
pub open spec fn kinds() -> Seq<AgentLaneKind> {
    seq![
        AgentLaneKind::Codex,
        AgentLaneKind::Claude,
        AgentLaneKind::Gemini,
        AgentLaneKind::Mock,
        AgentLaneKind::Unknown,
    ]
}

fn kind_at(i: usize) -> (r: AgentLaneKind)
    requires
        i < 5,
    ensures
        r == kinds()[i as int],
{
    match i {
        0 => AgentLaneKind::Codex,
        1 => AgentLaneKind::Claude,
        2 => AgentLaneKind::Gemini,
        3 => AgentLaneKind::Mock,
        _ => AgentLaneKind::Unknown,
    }
}

/// Those of the first `n` back ends that have agents, each with its agents.
pub open spec fn groups_upto(st: AppState, n: int) -> Seq<(AgentLaneKind, Seq<usize>)>
    decreases n,
{
    if n <= 0 {
        Seq::empty()
    } else {
        let kind: AgentLaneKind = kinds()[n - 1];
        if members(st, kind).len() > 0 {
            groups_upto(st, n - 1).push((kind, members(st, kind)))
        } else {
            groups_upto(st, n - 1)
        }
    }
}

/// The back ends that have agents, each with its agents.
pub open spec fn groups(st: AppState) -> Seq<(AgentLaneKind, Seq<usize>)> {
    groups_upto(st, 5)
}

pub open spec fn groups_view(v: Seq<(AgentLaneKind, Vec<usize>)>) -> Seq<
    (AgentLaneKind, Seq<usize>),
> {
    Seq::new(v.len(), |i: int| (v[i].0, v[i].1@))
}

pub fn roster_grouped_agent_indices(st: &AppState) -> (r: Vec<(AgentLaneKind, Vec<usize>)>)
    ensures
        groups_view(r@) == groups(*st),
{
    let mut out: Vec<(AgentLaneKind, Vec<usize>)> = Vec::new();
    let mut i: usize = 0;
    assert(groups_view(out@) =~= Seq::empty());
    while i < 5
        invariant
            i <= 5,
            groups_view(out@) == groups_upto(*st, i as int),
        decreases 5 - i,
    {
        let kind: AgentLaneKind = kind_at(i);
        let found: Vec<usize> = members_of(st, kind);
        if found.len() > 0 {
            let ghost before: Seq<(AgentLaneKind, Vec<usize>)> = out@;
            out.push((kind, found));
            assert(groups_view(out@) =~= groups_view(before).push((kind, found@)));
        }
        i += 1;
    }
    out
}

pub open spec fn expanded(st: AppState, kind: AgentLaneKind) -> bool {
    st.agents.roster_expanded_backend_kinds@.contains(kind)
}

pub fn roster_backend_is_expanded(st: &AppState, backend: AgentLaneKind) -> (r: bool)
    ensures
        r == expanded(*st, backend),
{
    let v: &Vec<AgentLaneKind> = &st.agents.roster_expanded_backend_kinds;
    let mut i: usize = 0;
    while i < v.len()
        invariant
            i <= v@.len(),
            v@ == st.agents.roster_expanded_backend_kinds@,
            forall|j: int| 0 <= j < i ==> v@[j] != backend,
        decreases v@.len() - i,
    {
        if v[i] == backend {
            assert(v@.contains(backend));
            return true;
        }
        i += 1;
    }
    false
}

/// The agents of the first `n` groups that are open, in the order of the roster.
pub open spec fn order_upto(st: AppState, n: int) -> Seq<usize>
    decreases n,
{
    if n <= 0 {
        Seq::empty()
    } else if expanded(st, groups(st)[n - 1].0) {
        order_upto(st, n - 1) + groups(st)[n - 1].1
    } else {
        order_upto(st, n - 1)
    }
}

/// The agents that the roster shows, in its order.
pub open spec fn display_order(st: AppState) -> Seq<usize> {
    order_upto(st, groups(st).len() as int)
}

pub fn roster_agent_display_order(st: &AppState) -> (r: Vec<usize>)
    ensures
        r@ == display_order(*st),
{
    let grouped: Vec<(AgentLaneKind, Vec<usize>)> = roster_grouped_agent_indices(st);
    let mut out: Vec<usize> = Vec::new();
    let mut i: usize = 0;
    while i < grouped.len()
        invariant
            i <= grouped@.len(),
            groups_view(grouped@) == groups(*st),
            out@ == order_upto(*st, i as int),
        decreases grouped@.len() - i,
    {
        assert(groups(*st)[i as int] == (grouped@[i as int].0, grouped@[i as int].1@));
        if roster_backend_is_expanded(st, grouped[i].0) {
            let mut more: Vec<usize> = grouped[i].1.clone();
            assert(more@ =~= grouped@[i as int].1@);
            out.append(&mut more);
        }
        i += 1;
    }
    out
}

pub open spec fn has_group(st: AppState, kind: AgentLaneKind) -> bool {
    members(st, kind).len() > 0
}

pub fn roster_first_agent_idx_for_backend(st: &AppState, backend: AgentLaneKind) -> (r: Option<
    usize,
>)
    ensures
        r == (if has_group(*st, backend) {
            Some(members(*st, backend)[0])
        } else {
            None
        }),
{
    let found: Vec<usize> = members_of(st, backend);
    if found.len() > 0 {
        Some(found[0])
    } else {
        None
    }
}

pub open spec fn agent_rows(v: Seq<usize>) -> Seq<RosterSelectableRow> {
    Seq::new(v.len(), |i: int| RosterSelectableRow::Agent { agent_idx: v[i] })
}

/// The rows of the first `n` groups that can be selected: each back end and, where it is open,
/// its agents.
pub open spec fn rows_upto(st: AppState, n: int) -> Seq<RosterSelectableRow>
    decreases n,
{
    if n <= 0 {
        Seq::empty()
    } else {
        let group: (AgentLaneKind, Seq<usize>) = groups(st)[n - 1];
        let with: Seq<RosterSelectableRow> = rows_upto(st, n - 1).push(
            RosterSelectableRow::Backend { backend: group.0 },
        );
        if expanded(st, group.0) {
            with + agent_rows(group.1)
        } else {
            with
        }
    }
}

/// The rows of the roster that can be selected.
pub open spec fn selectable(st: AppState) -> Seq<RosterSelectableRow> {
    rows_upto(st, groups(st).len() as int)
}

pub fn roster_selection_rows(st: &AppState) -> (r: Vec<RosterSelectableRow>)
    ensures
        r@ == selectable(*st),
{
    let grouped: Vec<(AgentLaneKind, Vec<usize>)> = roster_grouped_agent_indices(st);
    let mut out: Vec<RosterSelectableRow> = Vec::new();
    let mut i: usize = 0;
    while i < grouped.len()
        invariant
            i <= grouped@.len(),
            groups_view(grouped@) == groups(*st),
            out@ == rows_upto(*st, i as int),
        decreases grouped@.len() - i,
    {
        assert(groups(*st)[i as int] == (grouped@[i as int].0, grouped@[i as int].1@));
        let backend: AgentLaneKind = grouped[i].0;
        out.push(RosterSelectableRow::Backend { backend });
        if roster_backend_is_expanded(st, backend) {
            let found: &Vec<usize> = &grouped[i].1;
            let ghost start: Seq<RosterSelectableRow> = out@;
            let mut k: usize = 0;
            assert(out@ =~= start + agent_rows(found@.take(0)));
            while k < found.len()
                invariant
                    k <= found@.len(),
                    out@ == start + agent_rows(found@.take(k as int)),
                decreases found@.len() - k,
            {
                out.push(RosterSelectableRow::Agent { agent_idx: found[k] });
                k += 1;
                assert(out@ =~= start + agent_rows(found@.take(k as int)));
            }
            assert(found@.take(found@.len() as int) =~= found@);
        }
        i += 1;
    }
    out
}

/// The selected row: the selected back end where it has agents, else the selected agent where it
/// is shown, else its back end, else the first one.
pub open spec fn selected(st: AppState) -> Option<RosterSelectableRow> {
    let at: int = st.agents.roster_selected as int;
    if st.agents.roster_selected_backend is Some && has_group(
        st,
        st.agents.roster_selected_backend->0,
    ) {
        Some(RosterSelectableRow::Backend { backend: st.agents.roster_selected_backend->0 })
    } else if display_order(st).contains(st.agents.roster_selected) {
        Some(RosterSelectableRow::Agent { agent_idx: st.agents.roster_selected })
    } else if at < st.agents.agents@.len() && has_group(st, group_of(st.agents.agents@[at])) {
        Some(RosterSelectableRow::Backend { backend: group_of(st.agents.agents@[at]) })
    } else if groups(st).len() > 0 {
        Some(RosterSelectableRow::Backend { backend: groups(st)[0].0 })
    } else {
        None
    }
}

fn has_agents(st: &AppState, kind: AgentLaneKind) -> (r: bool)
    ensures
        r == has_group(*st, kind),
{
    members_of(st, kind).len() > 0
}

pub fn roster_selected_row(st: &AppState) -> (r: Option<RosterSelectableRow>)
    ensures
        r == selected(*st),
{
    match st.agents.roster_selected_backend {
        Some(backend) => {
            if has_agents(st, backend) {
                return Some(RosterSelectableRow::Backend { backend });
            }
        },
        None => {},
    }
    let order: Vec<usize> = roster_agent_display_order(st);
    let mut i: usize = 0;
    while i < order.len()
        invariant
            i <= order@.len(),
            order@ == display_order(*st),
            !(st.agents.roster_selected_backend is Some && has_group(
                *st,
                st.agents.roster_selected_backend->0,
            )),
            forall|j: int| 0 <= j < i ==> order@[j] != st.agents.roster_selected,
        decreases order@.len() - i,
    {
        if order[i] == st.agents.roster_selected {
            assert(display_order(*st).contains(order@[i as int]));
            return Some(RosterSelectableRow::Agent { agent_idx: st.agents.roster_selected });
        }
        i += 1;
    }
    assert(!display_order(*st).contains(st.agents.roster_selected));
    if st.agents.roster_selected < st.agents.agents.len() {
        let backend: AgentLaneKind = roster_backend_group_for_agent(
            &st.agents.agents[st.agents.roster_selected],
        );
        if has_agents(st, backend) {
            return Some(RosterSelectableRow::Backend { backend });
        }
    }
    let grouped: Vec<(AgentLaneKind, Vec<usize>)> = roster_grouped_agent_indices(st);
    assert(groups_view(grouped@).len() == groups(*st).len());
    if grouped.len() > 0 {
        assert(groups(*st)[0] == (grouped@[0].0, grouped@[0].1@));
        Some(RosterSelectableRow::Backend { backend: grouped[0].0 })
    } else {
        None
    }
}

proof fn groups_hold_kind(st: AppState, kind: AgentLaneKind, n: int)
    requires
        0 <= n <= 5,
    ensures
        groups_upto(st, n).len() <= n,
        forall|i: int|
            0 <= i < groups_upto(st, n).len() ==> {
                let g: (AgentLaneKind, Seq<usize>) = #[trigger] groups_upto(st, n)[i];
                g.1 == members(st, g.0) && g.1.len() > 0
            },
        has_group(st, kind) && kinds().take(n).contains(kind) ==> exists|i: int|
            0 <= i < groups_upto(st, n).len() && (#[trigger] groups_upto(st, n)[i]).0 == kind,
    decreases n,
{
    if n > 0 {
        groups_hold_kind(st, kind, n - 1);
        let here: AgentLaneKind = kinds()[n - 1];
        let before: Seq<(AgentLaneKind, Seq<usize>)> = groups_upto(st, n - 1);
        if has_group(st, kind) && kinds().take(n).contains(kind) {
            if here == kind {
                assert(groups_upto(st, n)[before.len() as int].0 == kind);
            } else {
                let k: int = choose|k: int| 0 <= k < n && kinds().take(n)[k] == kind;
                assert(kinds().take(n - 1)[k] == kind);
                let i: int = choose|i: int|
                    0 <= i < before.len() && (#[trigger] before[i]).0 == kind;
                assert(groups_upto(st, n)[i].0 == kind);
            }
        }
    }
}

proof fn every_kind_is_listed(kind: AgentLaneKind)
    ensures
        kinds().take(5).contains(kind),
{
    let v: Seq<AgentLaneKind> = kinds().take(5);
    match kind {
        AgentLaneKind::Codex => {
            assert(v[0] == kind);
        },
        AgentLaneKind::Claude => {
            assert(v[1] == kind);
        },
        AgentLaneKind::Gemini => {
            assert(v[2] == kind);
        },
        AgentLaneKind::Mock => {
            assert(v[3] == kind);
        },
        AgentLaneKind::Unknown => {
            assert(v[4] == kind);
        },
    }
}

proof fn rows_hold_groups(st: AppState, n: int, i: int)
    requires
        0 <= i < n <= groups(st).len(),
    ensures
        rows_upto(st, n).contains(RosterSelectableRow::Backend { backend: groups(st)[i].0 }),
    decreases n,
{
    let row: RosterSelectableRow = RosterSelectableRow::Backend { backend: groups(st)[i].0 };
    let before: Seq<RosterSelectableRow> = rows_upto(st, n - 1);
    let all: Seq<RosterSelectableRow> = rows_upto(st, n);
    if i == n - 1 {
        assert(all[before.len() as int] == row);
    } else {
        rows_hold_groups(st, n - 1, i);
        let k: int = choose|k: int| 0 <= k < before.len() && before[k] == row;
        assert(all[k] == row);
    }
}

proof fn rows_hold_agents(st: AppState, n: int, idx: usize)
    requires
        0 <= n <= groups(st).len(),
        order_upto(st, n).contains(idx),
    ensures
        rows_upto(st, n).contains(RosterSelectableRow::Agent { agent_idx: idx }),
    decreases n,
{
    if n > 0 {
        let row: RosterSelectableRow = RosterSelectableRow::Agent { agent_idx: idx };
        let group: (AgentLaneKind, Seq<usize>) = groups(st)[n - 1];
        let before: Seq<RosterSelectableRow> = rows_upto(st, n - 1);
        let all: Seq<RosterSelectableRow> = rows_upto(st, n);
        let k: int = choose|k: int| 0 <= k < order_upto(st, n).len() && order_upto(st, n)[k] == idx;
        if k < order_upto(st, n - 1).len() {
            assert(order_upto(st, n - 1)[k] == idx);
            rows_hold_agents(st, n - 1, idx);
            let j: int = choose|j: int| 0 <= j < before.len() && before[j] == row;
            assert(all[j] == row);
        } else {
            let j: int = k - order_upto(st, n - 1).len();
            assert(group.1[j] == idx);
            assert(all[before.len() + 1 + j] == agent_rows(group.1)[j]);
        }
    }
}

/// The selected row is one of the rows that can be selected, and there is one as soon as the
/// roster lists an agent.
pub proof fn selected_row_is_selectable(st: AppState)
    ensures
        selected(st) is Some <==> groups(st).len() > 0,
        selected(st) matches Some(row) ==> selectable(st).contains(row),
{
    let n: int = groups(st).len() as int;
    match selected(st) {
        Some(RosterSelectableRow::Backend { backend }) => {
            every_kind_is_listed(backend);
            groups_hold_kind(st, backend, 5);
            if has_group(st, backend) {
                let i: int = choose|i: int|
                    0 <= i < groups_upto(st, 5).len() && (#[trigger] groups_upto(st, 5)[i]).0
                        == backend;
                rows_hold_groups(st, n, i);
            } else {
                rows_hold_groups(st, n, 0);
            }
        },
        Some(RosterSelectableRow::Agent { agent_idx }) => {
            rows_hold_agents(st, n, agent_idx);
            if n == 0 {
                assert(order_upto(st, 0).len() == 0);
            }
        },
        None => {},
    }
}

} // verus!
