//! The table of the agents at work in one of several panes.

use vstd::prelude::*;

use crate::agent_console_view::breather;
use crate::agent_console_view::footer;
use crate::agent_console_view::rows;
use crate::agent_console_view::rows::Row;
use crate::agent_console_view::rows::ThreadRow;
use crate::agent_console_view::rows::ThreadRowKind;
use crate::agent_console_view::stages;
use crate::agent_console_view::turns;
use crate::fit;
use crate::state;
use crate::state::AgentLane;
use crate::state::AgentStatus;
use crate::state::AppState;
use crate::state::SwarmProgress;
use crate::state::SwarmRuntime;
use crate::text;

verus! {

/// How early an agent stands in the table: those at work come first.
pub open spec fn priority(st: AppState, id: Seq<char>) -> int {
    if turns::active(st, id) {
        0
    } else if turns::queued(st, id) {
        1
    } else {
        match turns::lane(st, id) {
            Some(agent) => match agent.status {
                AgentStatus::Running => 2,
                AgentStatus::Waiting => 2,
                AgentStatus::Idle => 3,
                AgentStatus::Error => 4,
            },
            None => 4,
        }
    }
}

pub fn breather_running_priority(st: &AppState, id: &str) -> (r: u8)
    ensures
        r == priority(*st, id@),
        r <= 4,
{
    if turns::is_active(st, id) {
        return 0;
    }
    if turns::is_queued(st, id) {
        return 1;
    }
    match turns::find_lane(st, id) {
        Some(agent) => match agent.status {
            AgentStatus::Running => 2,
            AgentStatus::Waiting => 2,
            AgentStatus::Idle => 3,
            AgentStatus::Error => 4,
        },
        None => 4,
    }
}

/// Those of the first `n` agents that stand this early.
pub open spec fn with_priority(st: AppState, ids: Seq<Seq<char>>, p: int, n: int) -> Seq<Seq<char>>
    decreases n,
{
    if n <= 0 {
        Seq::empty()
    } else {
        let before: Seq<Seq<char>> = with_priority(st, ids, p, n - 1);
        if priority(st, ids[n - 1]) == p {
            before.push(ids[n - 1])
        } else {
            before
        }
    }
}

/// The agents in the order in which they stand in the table, of two that stand equally early the
/// one that came first.
pub open spec fn by_priority(st: AppState, ids: Seq<Seq<char>>) -> Seq<Seq<char>> {
    let n: int = ids.len() as int;
    with_priority(st, ids, 0, n) + with_priority(st, ids, 1, n) + with_priority(st, ids, 2, n)
        + with_priority(st, ids, 3, n) + with_priority(st, ids, 4, n)
}

fn push_with_priority(out: &mut Vec<String>, st: &AppState, ids: &Vec<String>, p: u8)
    ensures
        text::texts(final(out)@) == text::texts(old(out)@) + with_priority(
            *st,
            text::texts(ids@),
            p as int,
            ids@.len() as int,
        ),
{
    broadcast use text::group_texts;

    let ghost before: Seq<Seq<char>> = text::texts(out@);
    let ghost all: Seq<Seq<char>> = text::texts(ids@);
    let mut i: usize = 0;
    assert(before + with_priority(*st, all, p as int, 0) =~= before);
    while i < ids.len()
        invariant
            i <= ids@.len(),
            all == text::texts(ids@),
            text::texts(out@) == before + with_priority(*st, all, p as int, i as int),
        decreases ids@.len() - i,
    {
        broadcast use text::group_texts;

        let ghost so_far: Seq<Seq<char>> = with_priority(*st, all, p as int, i as int);
        assert(all[i as int] == ids@[i as int]@);
        if breather_running_priority(st, ids[i].as_str()) == p {
            out.push(ids[i].clone());
            assert((before + so_far).push(all[i as int]) =~= before + so_far.push(all[i as int]));
        }
        i += 1;
    }
}

fn sort_by_priority(st: &AppState, ids: &Vec<String>) -> (r: Vec<String>)
    ensures
        text::texts(r@) == by_priority(*st, text::texts(ids@)),
{
    broadcast use {text::group_texts, text::group_line_lists};

    let mut out: Vec<String> = Vec::new();
    push_with_priority(&mut out, st, ids, 0);
    assert(text::texts(out@) =~= with_priority(*st, text::texts(ids@), 0, ids@.len() as int));
    push_with_priority(&mut out, st, ids, 1);
    push_with_priority(&mut out, st, ids, 2);
    push_with_priority(&mut out, st, ids, 3);
    push_with_priority(&mut out, st, ids, 4);
    out
}

proof fn priorities_match(st: AppState, ids: Seq<Seq<char>>, p: int, n: int, k: int)
    requires
        0 <= k < with_priority(st, ids, p, n).len(),
    ensures
        priority(st, with_priority(st, ids, p, n)[k]) == p,
    decreases n,
{
    if k < with_priority(st, ids, p, n - 1).len() {
        priorities_match(st, ids, p, n - 1, k);
    }
}

proof fn priority_at(st: AppState, ids: Seq<Seq<char>>, k: int) -> (p: int)
    requires
        0 <= k < by_priority(st, ids).len(),
    ensures
        priority(st, by_priority(st, ids)[k]) == p,
        ({
            let n: int = ids.len() as int;
            let a: int = with_priority(st, ids, 0, n).len() as int;
            let b: int = a + with_priority(st, ids, 1, n).len();
            let c: int = b + with_priority(st, ids, 2, n).len();
            let d: int = c + with_priority(st, ids, 3, n).len();
            p == (if k < a {
                0int
            } else if k < b {
                1
            } else if k < c {
                2
            } else if k < d {
                3
            } else {
                4
            })
        }),
{
    let n: int = ids.len() as int;
    let s0: Seq<Seq<char>> = with_priority(st, ids, 0, n);
    let s1: Seq<Seq<char>> = with_priority(st, ids, 1, n);
    let s2: Seq<Seq<char>> = with_priority(st, ids, 2, n);
    let s3: Seq<Seq<char>> = with_priority(st, ids, 3, n);
    let b: int = (s0.len() + s1.len()) as int;
    let c: int = (b + s2.len()) as int;
    let d: int = (c + s3.len()) as int;
    if k < s0.len() {
        priorities_match(st, ids, 0, n, k);
        0
    } else if k < b {
        priorities_match(st, ids, 1, n, k - s0.len());
        1
    } else if k < c {
        priorities_match(st, ids, 2, n, k - b);
        2
    } else if k < d {
        priorities_match(st, ids, 3, n, k - c);
        3
    } else {
        priorities_match(st, ids, 4, n, k - d);
        4
    }
}

/// In the table no agent stands before one that is to stand earlier.
pub proof fn table_is_sorted(st: AppState, ids: Seq<Seq<char>>, j: int, k: int)
    requires
        0 <= j < k < by_priority(st, ids).len(),
    ensures
        priority(st, by_priority(st, ids)[j]) <= priority(st, by_priority(st, ids)[k]),
{
    let a: int = priority_at(st, ids, j);
    let b: int = priority_at(st, ids, k);
}

proof fn each_has_one_priority(st: AppState, ids: Seq<Seq<char>>, n: int)
    requires
        0 <= n,
    ensures
        with_priority(st, ids, 0, n).len() + with_priority(st, ids, 1, n).len() + with_priority(
            st,
            ids,
            2,
            n,
        ).len() + with_priority(st, ids, 3, n).len() + with_priority(st, ids, 4, n).len() == n,
    decreases n,
{
    if n > 0 {
        each_has_one_priority(st, ids, n - 1);
    }
}

/// Sorting the table keeps its length.
pub proof fn sorting_keeps_length(st: AppState, ids: Seq<Seq<char>>)
    ensures
        by_priority(st, ids).len() == ids.len(),
{
    each_has_one_priority(st, ids, ids.len() as int);
}

proof fn bucket_holds(st: AppState, ids: Seq<Seq<char>>, i: int, n: int) -> (k: int)
    requires
        0 <= i < n <= ids.len(),
    ensures
        0 <= k < with_priority(st, ids, priority(st, ids[i]), n).len(),
        with_priority(st, ids, priority(st, ids[i]), n)[k] == ids[i],
    decreases n,
{
    if i == n - 1 {
        with_priority(st, ids, priority(st, ids[i]), n).len() - 1
    } else {
        bucket_holds(st, ids, i, n - 1)
    }
}

/// Sorting the table loses no agent.
pub proof fn sorting_keeps_agents(st: AppState, ids: Seq<Seq<char>>, i: int) -> (k: int)
    requires
        0 <= i < ids.len(),
    ensures
        0 <= k < by_priority(st, ids).len(),
        by_priority(st, ids)[k] == ids[i],
{
    let n: int = ids.len() as int;
    let s0: int = with_priority(st, ids, 0, n).len() as int;
    let s1: int = with_priority(st, ids, 1, n).len() as int;
    let s2: int = with_priority(st, ids, 2, n).len() as int;
    let s3: int = with_priority(st, ids, 3, n).len() as int;
    let at: int = bucket_holds(st, ids, i, n);
    let p: int = priority(st, ids[i]);
    if p == 0 {
        at
    } else if p == 1 {
        s0 + at
    } else if p == 2 {
        s0 + s1 + at
    } else if p == 3 {
        s0 + s1 + s2 + at
    } else {
        s0 + s1 + s2 + s3 + at
    }
}

/// Whether a hidden helper counts for the open agent.
pub open spec fn helper_counts(st: AppState, lane: AgentLane) -> bool {
    lane.shadow && (match st.agents.context_agent {
        Some(a) => text::opt_text(lane.shadow_base) == Some(a@),
        None => true,
    })
}

/// The hidden helpers among the first `n` agents that count.
pub open spec fn helpers_upto(st: AppState, n: int) -> Seq<Seq<char>>
    decreases n,
{
    if n <= 0 {
        Seq::empty()
    } else {
        let before: Seq<Seq<char>> = helpers_upto(st, n - 1);
        if helper_counts(st, st.agents.agents@[n - 1]) {
            before.push(st.agents.agents@[n - 1].id@)
        } else {
            before
        }
    }
}

/// The hidden helpers that count.
pub open spec fn helpers(st: AppState) -> Seq<Seq<char>> {
    helpers_upto(st, st.agents.agents@.len() as int)
}

fn collect_helpers(st: &AppState) -> (r: Vec<String>)
    ensures
        text::texts(r@) == helpers(*st),
{
    broadcast use text::group_texts;

    let mut out: Vec<String> = Vec::new();
    let mut i: usize = 0;
    while i < st.agents.agents.len()
        invariant
            i <= st.agents.agents@.len(),
            text::texts(out@) == helpers_upto(*st, i as int),
        decreases st.agents.agents@.len() - i,
    {
        broadcast use text::group_texts;

        let lane: &AgentLane = &st.agents.agents[i];
        let counts: bool = lane.shadow && (match &st.agents.context_agent {
            Some(a) => text::opt_str_eq(&lane.shadow_base, a.as_str()),
            None => true,
        });
        if counts {
            out.push(lane.id.clone());
        }
        i += 1;
    }
    out
}

/// The agents of the table before it is sorted: those of the open swarm, then the busy ones that
/// the context is about, then, unless the pane stands alone, the other busy ones.
pub open spec fn unsorted(st: AppState, isolate: bool) -> Seq<Seq<char>> {
    let first: Seq<Seq<char>> = breather::joined(
        breather::assigned(st),
        breather::busy_agents(st, true),
    );
    if isolate {
        first
    } else {
        breather::joined(first, breather::busy_agents(st, false))
    }
}

/// Whether an agent of the table or a helper is at work.
pub open spec fn any_active(st: AppState, isolate: bool) -> bool {
    breather::any_active(st, unsorted(st, isolate)) || breather::any_active(st, helpers(st))
}

/// Whether a turn of an agent of the table or of a helper waits.
pub open spec fn any_queued(st: AppState, isolate: bool) -> bool {
    breather::any_queued(st, unsorted(st, isolate)) || breather::any_queued(st, helpers(st))
}

/// How far the open swarm is.
pub open spec fn progress(st: AppState, swarm: Option<&SwarmRuntime>) -> Option<SwarmProgress> {
    match swarm {
        Some(s) => if turns::open_swarm(st) is Some {
            state::value_of(s.progress@, st.agents.context_mission->0@)
        } else {
            None
        },
        None => None,
    }
}

fn find_progress<'a>(st: &AppState, swarm: Option<&'a SwarmRuntime>) -> (r: Option<
    &'a SwarmProgress,
>)
    ensures
        match r {
            Some(p) => progress(*st, swarm) == Some(*p),
            None => progress(*st, swarm) is None,
        },
{
    match (swarm, &st.agents.context_mission) {
        (Some(s), Some(m)) => if turns::find_open_swarm(st).is_some() {
            state::lookup(&s.progress, m.as_str())
        } else {
            None
        },
        _ => None,
    }
}

/// Whether the open swarm is done: by its own word, or, where it has no say, once all of its agents
/// have spoken.
pub open spec fn all_done(st: AppState, swarm: Option<&SwarmRuntime>) -> bool {
    match swarm {
        Some(s) => match progress(st, swarm) {
            Some(p) => p.complete,
            None => false,
        },
        None => breather::all_spoke(
            st,
            breather::assigned(st),
            st.agents.context_mission->0@,
        ),
    }
}

/// What the agents of a swarm do together.
pub open spec fn swarm_headline(
    st: AppState,
    swarm: Option<&SwarmRuntime>,
    exec_label: Seq<char>,
    isolate: bool,
) -> Seq<char> {
    let aborted: bool = match progress(st, swarm) {
        Some(p) => p.aborted,
        None => false,
    };
    let stage: Option<Seq<char>> = match progress(st, swarm) {
        Some(p) => text::opt_text(p.stage),
        None => None,
    };
    let hinted: bool = match progress(st, swarm) {
        Some(p) => p.hint is Some,
        None => false,
    };
    if aborted {
        "Aborted"@
    } else if any_active(st, isolate) || any_queued(st, isolate) {
        if stage == Some("PLAN"@) {
            "Planning ..."@
        } else if stage == Some("VERIFY"@) {
            "Verifying ..."@
        } else if stage == Some("SYNTH"@) {
            "Synthesizing ..."@
        } else if stage == Some("EXEC"@) || any_active(st, isolate) {
            exec_label
        } else {
            "Queued ..."@
        }
    } else if hinted {
        if stage == Some("VERIFY"@) {
            "Verifying ..."@
        } else if stage == Some("SYNTH"@) {
            "Synthesizing ..."@
        } else {
            "Waiting ..."@
        }
    } else if all_done(st, swarm) {
        "Done"@
    } else {
        "Waiting ..."@
    }
}

/// What the agents of the table do together, without the hint.
pub open spec fn base_headline(
    st: AppState,
    swarm: Option<&SwarmRuntime>,
    exec_label: Seq<char>,
    isolate: bool,
) -> Seq<char> {
    if turns::open_swarm(st) is Some {
        swarm_headline(st, swarm, exec_label, isolate)
    } else {
        match st.shadow_stage {
            Some(s) => s@ + " ..."@,
            None => if any_active(st, isolate) || !any_queued(st, isolate) {
                "Working ..."@
            } else {
                "Queued ..."@
            },
        }
    }
}

/// A text without dots in threes at its end.
pub open spec fn without_dots(s: Seq<char>) -> Seq<char>
    decreases s.len(),
{
    if s.len() >= 3 && s.subrange(s.len() - 3, s.len() as int) == seq!['.', '.', '.'] {
        without_dots(s.subrange(0, s.len() - 3))
    } else {
        s
    }
}

fn trim_dots(s: &str) -> (r: String)
    ensures
        r@ == without_dots(s@),
{
    let v: Vec<char> = text::chars_of(s);
    let mut n: usize = v.len();
    assert(v@.subrange(0, n as int) =~= s@);
    while n >= 3 && v[n - 1] == '.' && v[n - 2] == '.' && v[n - 3] == '.'
        invariant
            n <= v@.len(),
            without_dots(v@.subrange(0, n as int)) == without_dots(s@),
        decreases n,
    {
        let ghost here: Seq<char> = v@.subrange(0, n as int);
        assert(here.subrange(n - 3, n as int) =~= seq!['.', '.', '.']);
        assert(here.subrange(0, n - 3) =~= v@.subrange(0, n - 3));
        n -= 3;
    }
    let ghost here: Seq<char> = v@.subrange(0, n as int);
    if n >= 3 {
        assert(here.subrange(n - 3, n as int) != seq!['.', '.', '.']) by {
            let last: Seq<char> = here.subrange(n - 3, n as int);
            assert(last[0] == v@[n - 3] && last[1] == v@[n - 2] && last[2] == v@[n - 1]);
        }
    }
    text::text_range(&v, 0, n)
}

/// What the agents of the table do together.
pub open spec fn headline(
    st: AppState,
    swarm: Option<&SwarmRuntime>,
    exec_label: Seq<char>,
    isolate: bool,
) -> Seq<char> {
    let base: Seq<char> = base_headline(st, swarm, exec_label, isolate);
    match progress(st, swarm) {
        Some(p) => match p.hint {
            Some(hint) if text::ends(base, "..."@) => text::trimmed_end(without_dots(base)) + " ("@
                + hint@ + ") ..."@,
            _ => base,
        },
        None => base,
    }
}

fn swarm_headline_of(
    st: &AppState,
    swarm: Option<&SwarmRuntime>,
    exec_label: &str,
    isolate: bool,
    active: bool,
    queued: bool,
) -> (r: String)
    requires
        turns::open_swarm(*st) is Some,
        active == any_active(*st, isolate),
        queued == any_queued(*st, isolate),
    ensures
        r@ == swarm_headline(*st, swarm, exec_label@, isolate),
{
    let none: Option<String> = None;
    let (aborted, complete, hinted, stage): (bool, bool, bool, &Option<String>) =
        match find_progress(st, swarm) {
        Some(p) => (p.aborted, p.complete, p.hint.is_some(), &p.stage),
        None => (false, false, false, &none),
    };
    if aborted {
        text::copy("Aborted")
    } else if active || queued {
        if text::opt_str_eq(stage, "PLAN") {
            text::copy("Planning ...")
        } else if text::opt_str_eq(stage, "VERIFY") {
            text::copy("Verifying ...")
        } else if text::opt_str_eq(stage, "SYNTH") {
            text::copy("Synthesizing ...")
        } else if text::opt_str_eq(stage, "EXEC") || active {
            text::copy(exec_label)
        } else {
            text::copy("Queued ...")
        }
    } else if hinted {
        if text::opt_str_eq(stage, "VERIFY") {
            text::copy("Verifying ...")
        } else if text::opt_str_eq(stage, "SYNTH") {
            text::copy("Synthesizing ...")
        } else {
            text::copy("Waiting ...")
        }
    } else {
        let done: bool = match (swarm, &st.agents.context_mission) {
            (Some(_), _) => complete,
            (None, Some(m)) => {
                let ids: Vec<String> = breather::collect_assigned(st);
                breather::have_all_spoken(st, &ids, m.as_str())
            },
            (None, None) => false,
        };
        if done {
            text::copy("Done")
        } else {
            text::copy("Waiting ...")
        }
    }
}

fn headline_of(
    st: &AppState,
    swarm: Option<&SwarmRuntime>,
    exec_label: &str,
    isolate: bool,
    active: bool,
    queued: bool,
) -> (r: String)
    requires
        active == any_active(*st, isolate),
        queued == any_queued(*st, isolate),
    ensures
        r@ == headline(*st, swarm, exec_label@, isolate),
{
    let base: String = if turns::find_open_swarm(st).is_some() {
        swarm_headline_of(st, swarm, exec_label, isolate, active, queued)
    } else {
        match &st.shadow_stage {
            Some(s) => text::cat2(s.as_str(), " ..."),
            None => if active || !queued {
                text::copy("Working ...")
            } else {
                text::copy("Queued ...")
            },
        }
    };
    if let Some(p) = find_progress(st, swarm) {
        if let Some(hint) = &p.hint {
            if text::ends_with(base.as_str(), "...") {
                let bare: String = trim_dots(base.as_str());
                let short: String = text::trim_end(bare.as_str());
                return text::cat4(short.as_str(), " (", hint.as_str(), ") ...");
            }
        }
    }
    base
}

/// The stage of an agent of the table: one of a swarm that is done and that never spoke was
/// skipped.
pub open spec fn stage(st: AppState, swarm: Option<&SwarmRuntime>, id: Seq<char>) -> Seq<char> {
    let raw: Seq<char> = breather::table_stage(st, id);
    let complete: bool = match progress(st, swarm) {
        Some(p) => p.complete,
        None => false,
    };
    if complete && raw == "swarm_pending"@ && turns::turn(st, id) is None {
        "swarm_skipped"@
    } else {
        raw
    }
}

fn stage_of(
    st: &AppState,
    swarm: Option<&SwarmRuntime>,
    assigned_ids: &Vec<String>,
    id: &str,
) -> (r: String)
    requires
        text::texts(assigned_ids@) == breather::assigned(*st),
    ensures
        r@ == stage(*st, swarm, id@),
{
    let raw: String = breather::table_stage_of(st, assigned_ids, id);
    let complete: bool = match find_progress(st, swarm) {
        Some(p) => p.complete,
        None => false,
    };
    if complete && text::str_eq(raw.as_str(), "swarm_pending") && turns::find_turn(
        st,
        id,
    ).is_none() {
        text::copy("swarm_skipped")
    } else {
        raw
    }
}

/// The rows on the first `n` agents of the table.
pub open spec fn agents_upto(
    st: AppState,
    swarm: Option<&SwarmRuntime>,
    ids: Seq<Seq<char>>,
    width: int,
    n: int,
) -> Seq<Row>
    decreases n,
{
    if n <= 0 {
        Seq::empty()
    } else {
        let raw: Seq<char> = stage(st, swarm, ids[n - 1]);
        agents_upto(st, swarm, ids, width, n - 1) + (if breather::name_width(width) < 6 {
            breather::narrow_rows(st, ids[n - 1], raw, breather::no_times(raw), width)
        } else {
            breather::agent_rows(st, ids[n - 1], raw, breather::no_times(raw), width)
        })
    }
}

fn push_agents(
    out: &mut Vec<ThreadRow>,
    st: &AppState,
    swarm: Option<&SwarmRuntime>,
    ids: &Vec<String>,
    count: usize,
    width: usize,
)
    requires
        count <= ids@.len(),
    ensures
        rows::rows(final(out)@) == rows::rows(old(out)@) + agents_upto(
            *st,
            swarm,
            text::texts(ids@),
            width as int,
            count as int,
        ),
{
    broadcast use rows::group_rows;

    let ghost before: Seq<Row> = rows::rows(out@);
    let ghost all: Seq<Seq<char>> = text::texts(ids@);
    let assigned_ids: Vec<String> = breather::collect_assigned(st);
    let narrow: bool = text::max_of(text::minus(width, 18), 1) < 6;
    let mut i: usize = 0;
    while i < count
        invariant
            i <= count <= ids@.len(),
            all == text::texts(ids@),
            text::texts(assigned_ids@) == breather::assigned(*st),
            narrow == (breather::name_width(width as int) < 6),
            rows::rows(out@) == before + agents_upto(*st, swarm, all, width as int, i as int),
        decreases count - i,
    {
        broadcast use rows::group_rows;

        let id: &str = ids[i].as_str();
        assert(all[i as int] == id@);
        let raw: String = stage_of(st, swarm, &assigned_ids, id);
        let suppress: bool = text::str_eq(raw.as_str(), "queued") || text::str_eq(
            raw.as_str(),
            "swarm_queued",
        );
        if narrow {
            breather::push_narrow_rows(out, st, id, raw.as_str(), suppress, width);
        } else {
            breather::push_agent_rows(out, st, id, raw.as_str(), suppress, width);
        }
        i += 1;
    }
}

/// How many agents the table shows: six, unless it is shown in full.
pub open spec fn shown_count(st: AppState, total: int) -> int {
    if st.roster_no_truncate {
        total
    } else {
        text::min_int(total, 6)
    }
}

/// The row on the agents that are not shown.
pub open spec fn more_row(hidden: int, width: int) -> Seq<Row> {
    let label: Seq<char> = "↳ (+"@ + text::decimal(hidden as nat) + " more)"@;
    if hidden <= 0 {
        Seq::empty()
    } else if breather::name_width(width) < 6 {
        seq![rows::row(fit::padded(label, width), ThreadRowKind::StatusSubRow)]
    } else {
        seq![breather::table_row(label, ""@, ""@, ""@, width, ThreadRowKind::StatusRow)]
    }
}

fn push_more_row(out: &mut Vec<ThreadRow>, hidden: usize, width: usize)
    ensures
        rows::rows(final(out)@) == rows::rows(old(out)@) + more_row(hidden as int, width as int),
{
    broadcast use rows::group_rows;

    if hidden == 0 {
        return;
    }
    let label: String = text::cat3("↳ (+", text::decimal_usize(hidden).as_str(), " more)");
    if text::max_of(text::minus(width, 18), 1) < 6 {
        rows::push_row(out, fit::pad_to_width(label.as_str(), width), ThreadRowKind::StatusSubRow);
    } else {
        breather::push_table_row(
            out,
            label.as_str(),
            "",
            "",
            "",
            width,
            ThreadRowKind::StatusRow,
        );
    }
}

/// Whose heartbeat stands for the table.
pub open spec fn beating(st: AppState, isolate: bool) -> Option<Seq<char>> {
    match breather::first_of(breather::busy_agents(st, true)) {
        Some(id) => Some(id),
        None => match breather::first_of(breather::busy_agents(st, false)) {
            Some(id) => Some(id),
            None => breather::first_of(by_priority(st, unsorted(st, isolate))),
        },
    }
}

/// The table of the agents at work in a pane.
pub open spec fn table(
    st: AppState,
    swarm: Option<&SwarmRuntime>,
    exec_label: Seq<char>,
    pulse_on: bool,
    given: int,
    isolate: bool,
) -> Seq<Row> {
    let width: int = text::max_int(given, 1);
    let ids: Seq<Seq<char>> = by_priority(st, unsorted(st, isolate));
    let total: int = ids.len() as int;
    let label: Seq<char> = headline(st, swarm, exec_label, isolate);
    if total == 0 {
        Seq::empty()
    } else {
        seq![
            rows::row(
                stages::beat(
                    st.frame_count,
                    beating(st, isolate),
                    pulse_on,
                    !(label == "Done"@ || label == "Aborted"@),
                ) + " "@ + label,
                ThreadRowKind::Breather,
            ),
        ] + (if breather::name_width(width) < 6 {
            Seq::empty()
        } else {
            seq![breather::table_head(width)]
        }) + agents_upto(st, swarm, ids, width, shown_count(st, total)) + more_row(
            total - shown_count(st, total),
            width,
        ) + (match turns::open_swarm(st) {
            Some(m) => footer::footer_rows(
                st,
                st.agents.context_mission->0@,
                any_active(st, isolate) || any_queued(st, isolate),
                width,
            ),
            None => Seq::empty(),
        })
    }
}

pub fn breather_rows_for_user_prompt(
    st: &AppState,
    swarm: Option<&SwarmRuntime>,
    exec_label: &str,
    pulse_on: bool,
    given: usize,
    isolate: bool,
) -> (r: Vec<ThreadRow>)
    ensures
        rows::rows(r@) == table(*st, swarm, exec_label@, pulse_on, given as int, isolate),
{
    broadcast use rows::group_rows;

    let width: usize = text::max_of(given, 1);
    let first: Vec<String> = breather::collect_busy(st, true);
    let others: Vec<String> = breather::collect_busy(st, false);
    let near: Vec<String> = breather::join_new(breather::collect_assigned(st), &first);
    let listed: Vec<String> = if isolate {
        near
    } else {
        breather::join_new(near, &others)
    };
    let ids: Vec<String> = sort_by_priority(st, &listed);
    let total: usize = ids.len();
    assert(text::texts(ids@).len() == total);
    proof {
        sorting_keeps_length(*st, unsorted(*st, isolate));
    }
    let mut out: Vec<ThreadRow> = Vec::new();
    if total == 0 {
        return out;
    }
    let hidden_ids: Vec<String> = collect_helpers(st);
    let active: bool = breather::is_any_active(st, &listed) || breather::is_any_active(
        st,
        &hidden_ids,
    );
    let queued: bool = breather::is_any_queued(st, &listed) || breather::is_any_queued(
        st,
        &hidden_ids,
    );
    let label: String = headline_of(st, swarm, exec_label, isolate, active, queued);
    let who: Option<&str> = match breather::first_str(&first) {
        Some(id) => Some(id),
        None => match breather::first_str(&others) {
            Some(id) => Some(id),
            None => breather::first_str(&ids),
        },
    };
    let moving: bool = !(text::str_eq(label.as_str(), "Done") || text::str_eq(
        label.as_str(),
        "Aborted",
    ));
    let beat: &str = stages::ecg_indicator(st.frame_count, who, pulse_on, moving);
    let count: usize = if st.roster_no_truncate {
        total
    } else {
        text::min_of(total, 6)
    };
    rows::push_row(&mut out, text::cat3(beat, " ", label.as_str()), ThreadRowKind::Breather);
    if text::max_of(text::minus(width, 18), 1) >= 6 {
        breather::push_table_head(&mut out, width);
    }
    push_agents(&mut out, st, swarm, &ids, count, width);
    push_more_row(&mut out, total - count, width);
    if turns::find_open_swarm(st).is_some() {
        if let Some(mission) = &st.agents.context_mission {
            footer::append_swarm_meta_footer_rows(
                &mut out,
                st,
                mission.as_str(),
                width,
                active || queued,
            );
        }
    }
    out
}

} // verus!
