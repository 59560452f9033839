//! The rows of the messages, kept between two frames.

use vstd::prelude::*;

use crate::agent_console_view::breather;
use crate::agent_console_view::messages;
use crate::agent_console_view::rows;
use crate::agent_console_view::rows::Row;
use crate::agent_console_view::rows::ThreadRow;
use crate::agent_console_view::thread;
use crate::agent_console_view::turns;
use crate::state;
use crate::state::AppState;
use crate::state::SwarmRuntime;
use crate::text;

verus! {

/// What the kept rows were made for.
pub struct RowsKey {
    pub width: usize,
    pub mission: Option<String>,
    pub agent: Option<String>,
    pub messages_len: usize,
    pub event_epoch: u64,
}

/// The rows of the messages and the places behind the prompts, where the agents at work on them are
/// shown: each place with the prompt.
pub struct RowsCache {
    pub key: Option<RowsKey>,
    pub rows: Vec<ThreadRow>,
    pub last_message_was_user: bool,
    pub slots: Vec<(usize, usize)>,
}

/// The agent that messages are picked for: none where a mission is.
pub open spec fn chosen_agent(st: AppState) -> Option<Seq<char>> {
    if st.agents.context_mission is Some {
        None
    } else {
        text::opt_text(st.agents.context_agent)
    }
}

/// The messages that the rows are made of.
pub open spec fn order(st: AppState) -> Seq<int> {
    messages::grouped(st, text::opt_text(st.agents.context_mission), chosen_agent(st))
}

/// Whether the kept rows are taken as they are.
pub open spec fn fits(cache: RowsCache, st: AppState, width: int) -> bool {
    cache.key matches Some(k) && k.width == width && k.messages_len == st.agents.messages@.len()
        && text::opt_text(k.mission) == text::opt_text(st.agents.context_mission) && text::opt_text(
        k.agent,
    ) == chosen_agent(st)
}

/// The rows of the first `n` messages.
pub open spec fn rows_upto(
    st: AppState,
    swarm: Option<&SwarmRuntime>,
    order: Seq<int>,
    width: int,
    n: int,
) -> Seq<Row>
    decreases n,
{
    if n <= 0 {
        Seq::empty()
    } else {
        rows_upto(st, swarm, order, width, n - 1) + messages::message_rows(
            st,
            swarm,
            order[n - 1],
            width,
        )
    }
}

/// The places behind the prompts among the first `n` messages.
pub open spec fn slots_upto(
    st: AppState,
    swarm: Option<&SwarmRuntime>,
    order: Seq<int>,
    width: int,
    n: int,
) -> Seq<(int, int)>
    decreases n,
{
    if n <= 0 {
        Seq::empty()
    } else {
        let before: Seq<(int, int)> = slots_upto(st, swarm, order, width, n - 1);
        if thread::is_prompt(st, order[n - 1]) {
            before.push((rows_upto(st, swarm, order, width, n).len() as int, order[n - 1]))
        } else {
            before
        }
    }
}

/// Places as integers.
pub open spec fn slots(v: Seq<(usize, usize)>) -> Seq<(int, int)> {
    Seq::new(v.len(), |i: int| (v[i].0 as int, v[i].1 as int))
}

/// Whether the kept rows are those of the messages as they are now.
pub open spec fn is_fresh(cache: RowsCache, st: AppState, swarm: Option<&SwarmRuntime>, width: int) -> bool {
    let all: Seq<int> = order(st);
    let n: int = all.len() as int;
    &&& rows::rows(cache.rows@) == rows_upto(st, swarm, all, width, n)
    &&& slots(cache.slots@) == slots_upto(st, swarm, all, width, n)
    &&& cache.last_message_was_user == (n > 0 && thread::is_prompt(st, all[n - 1]))
}

/// The kept rows where they fit, and otherwise new ones.
pub fn refresh_thread_rows_cache(
    cache: RowsCache,
    st: &AppState,
    swarm: Option<&SwarmRuntime>,
    given: usize,
    event_epoch: u64,
) -> (r: RowsCache)
    ensures
        fits(cache, *st, text::max_int(given as int, 1)) ==> r == cache,
        !fits(cache, *st, text::max_int(given as int, 1)) ==> is_fresh(
            r,
            *st,
            swarm,
            text::max_int(given as int, 1),
        ) && (r.key matches Some(k) && k.event_epoch == event_epoch),
        fits(r, *st, text::max_int(given as int, 1)),
{
    broadcast use rows::group_rows;

    let width: usize = text::max_of(given, 1);
    let mission: Option<String> = state::clone_opt(&st.agents.context_mission);
    let agent: Option<String> = if mission.is_some() {
        None
    } else {
        state::clone_opt(&st.agents.context_agent)
    };
    let hit: bool = match &cache.key {
        Some(k) => k.width == width && k.messages_len == st.agents.messages.len()
            && state::same_opt(&k.mission, &mission) && state::same_opt(&k.agent, &agent),
        None => false,
    };
    if hit {
        return cache;
    }
    let order_of: Vec<usize> = messages::visible_messages_grouped(
        st,
        state::as_str(&mission),
        state::as_str(&agent),
    );
    let ghost all: Seq<int> = messages::ints(order_of@);
    assert(all.len() == order_of@.len());
    assert(all == order(*st));
    let mut out: Vec<ThreadRow> = Vec::new();
    let mut places: Vec<(usize, usize)> = Vec::new();
    let mut last: bool = false;
    let mut i: usize = 0;
    assert(slots(places@) =~= slots_upto(*st, swarm, all, width as int, 0));
    while i < order_of.len()
        invariant
            i <= order_of@.len(),
            all == messages::ints(order_of@),
            forall|k: int| 0 <= k < order_of@.len() ==> (#[trigger] order_of@[k])
                < st.agents.messages@.len(),
            rows::rows(out@) == rows_upto(*st, swarm, all, width as int, i as int),
            slots(places@) == slots_upto(*st, swarm, all, width as int, i as int),
            last == (i > 0 && thread::is_prompt(*st, all[i - 1])),
        decreases order_of@.len() - i,
    {
        let idx: usize = order_of[i];
        assert(all[i as int] == idx);
        last = st.agents.messages[idx].agent_id.is_none();
        rows::append_rows(&mut out, messages::format_message_rows(st, swarm, idx, width));
        assert(rows::rows(out@).len() == out@.len());
        if last {
            let ghost before: Seq<(int, int)> = slots(places@);
            let at: usize = out.len();
            places.push((at, idx));
            assert(slots(places@) =~= before.push((at as int, idx as int)));
        }
        i += 1;
    }
    RowsCache {
        key: Some(
            RowsKey {
                width,
                mission,
                agent,
                messages_len: st.agents.messages.len(),
                event_epoch,
            },
        ),
        rows: out,
        last_message_was_user: last,
        slots: places,
    }
}

/// The rows from `i` on with the tables of the places from `k` on put in where they belong; what
/// belongs nowhere comes last.
pub open spec fn merged(
    st: AppState,
    v: Seq<Row>,
    places: Seq<(int, int)>,
    pulse_on: bool,
    width: int,
    i: int,
    k: int,
) -> Seq<Row>
    decreases v.len() - i, places.len() - k,
{
    if 0 <= k < places.len() && (i >= v.len() || (i > 0 && places[k].0 == i)) {
        thread::prompt_table(st, places[k].1, pulse_on, width) + merged(
            st,
            v,
            places,
            pulse_on,
            width,
            i,
            k + 1,
        )
    } else if 0 <= i < v.len() {
        seq![v[i]] + merged(st, v, places, pulse_on, width, i + 1, k)
    } else {
        Seq::empty()
    }
}

/// The agents that are shown at the places from `k` on.
pub open spec fn shown_from(st: AppState, places: Seq<(int, int)>, k: int) -> Seq<Seq<char>>
    decreases places.len() - k,
{
    if 0 <= k < places.len() {
        turns::on_prompt(st, places[k].1) + shown_from(st, places, k + 1)
    } else {
        Seq::empty()
    }
}

pub fn push_place(
    out: &mut Vec<ThreadRow>,
    shown: &mut Vec<String>,
    st: &AppState,
    prompt: usize,
    pulse_on: bool,
    width: usize,
)
    ensures
        rows::rows(final(out)@) == rows::rows(old(out)@) + thread::prompt_table(
            *st,
            prompt as int,
            pulse_on,
            width as int,
        ),
        text::texts(final(shown)@) == text::texts(old(shown)@) + turns::on_prompt(
            *st,
            prompt as int,
        ),
{
    broadcast use rows::group_rows;

    let ghost names: Seq<Seq<char>> = text::texts(shown@);
    let mut ids: Vec<String> = turns::agents_on_prompt(st, prompt);
    assert(text::texts(ids@).len() == ids@.len());
    if ids.len() > 0 {
        rows::append_rows(out, breather::inline_breather_rows(st, &ids, pulse_on, width));
    }
    let ghost held: Seq<String> = shown@;
    let ghost more: Seq<String> = ids@;
    shown.append(&mut ids);
    assert(text::texts(shown@) =~= text::texts(held) + text::texts(more));
}

/// The kept rows with the agents at work below their prompts, and which agents those are.
pub fn combined_rows(cache: &RowsCache, st: &AppState, pulse_on: bool, width: usize) -> (r: (
    Vec<ThreadRow>,
    Vec<String>,
))
    ensures
        rows::rows(r.0@) == merged(
            *st,
            rows::rows(cache.rows@),
            slots(cache.slots@),
            pulse_on,
            width as int,
            0,
            0,
        ),
        text::texts(r.1@) == shown_from(*st, slots(cache.slots@), 0),
{
    broadcast use {rows::group_rows, text::group_line_lists};

    let ghost v: Seq<Row> = rows::rows(cache.rows@);
    let ghost places: Seq<(int, int)> = slots(cache.slots@);
    let ghost want: Seq<Row> = merged(*st, v, places, pulse_on, width as int, 0, 0);
    let ghost names: Seq<Seq<char>> = shown_from(*st, places, 0);
    let mut out: Vec<ThreadRow> = Vec::new();
    let mut shown: Vec<String> = Vec::new();
    let mut i: usize = 0;
    let mut k: usize = 0;
    assert(rows::rows(out@) + want =~= want);
    assert(text::texts(shown@) + names =~= names);
    while i < cache.rows.len() || k < cache.slots.len()
        invariant
            i <= cache.rows@.len(),
            k <= cache.slots@.len(),
            v == rows::rows(cache.rows@),
            places == slots(cache.slots@),
            want == rows::rows(out@) + merged(
                *st,
                v,
                places,
                pulse_on,
                width as int,
                i as int,
                k as int,
            ),
            names == text::texts(shown@) + shown_from(*st, places, k as int),
        decreases cache.rows@.len() - i, cache.slots@.len() - k,
    {
        broadcast use {rows::group_rows, text::group_line_lists};

        if k < cache.slots.len() && (i >= cache.rows.len() || (i > 0 && cache.slots[k].0 == i)) {
            assert(places[k as int] == (
                cache.slots@[k as int].0 as int,
                cache.slots@[k as int].1 as int,
            ));
            push_place(&mut out, &mut shown, st, cache.slots[k].1, pulse_on, width);
            k += 1;
        } else {
            assert(v[i as int] == cache.rows@[i as int]@);
            out.push(cache.rows[i].copy());
            i += 1;
        }
    }
    (out, shown)
}

proof fn rows_grow(
    st: AppState,
    swarm: Option<&SwarmRuntime>,
    order: Seq<int>,
    width: int,
    n: int,
    m: int,
)
    requires
        0 <= n <= m,
    ensures
        rows_upto(st, swarm, order, width, n).len() <= rows_upto(st, swarm, order, width, m).len(),
        rows_upto(st, swarm, order, width, m).subrange(
            0,
            rows_upto(st, swarm, order, width, n).len() as int,
        ) =~= rows_upto(st, swarm, order, width, n),
    decreases m - n,
{
    if n < m {
        rows_grow(st, swarm, order, width, n, m - 1);
        let a: Seq<Row> = rows_upto(st, swarm, order, width, n);
        let b: Seq<Row> = rows_upto(st, swarm, order, width, m - 1);
        let c: Seq<Row> = rows_upto(st, swarm, order, width, m);
        assert(c.subrange(0, a.len() as int) =~= b.subrange(0, a.len() as int));
    }
}

proof fn slots_grow(
    st: AppState,
    swarm: Option<&SwarmRuntime>,
    order: Seq<int>,
    width: int,
    n: int,
    m: int,
)
    requires
        0 <= n <= m,
    ensures
        slots_upto(st, swarm, order, width, n).len() <= slots_upto(
            st,
            swarm,
            order,
            width,
            m,
        ).len(),
        forall|k: int|
            0 <= k < slots_upto(st, swarm, order, width, n).len() ==> #[trigger] slots_upto(
                st,
                swarm,
                order,
                width,
                m,
            )[k] == slots_upto(st, swarm, order, width, n)[k],
        forall|k: int|
            slots_upto(st, swarm, order, width, n).len() <= k < slots_upto(
                st,
                swarm,
                order,
                width,
                m,
            ).len() ==> rows_upto(st, swarm, order, width, n).len() < (#[trigger] slots_upto(
                st,
                swarm,
                order,
                width,
                m,
            )[k]).0,
    decreases m - n,
{
    if n < m {
        slots_grow(st, swarm, order, width, n, m - 1);
        rows_grow(st, swarm, order, width, n, m - 1);
        if thread::is_prompt(st, order[m - 1]) {
            prompts_have_rows(st, swarm, order[m - 1], width);
        }
    }
}

proof fn prompts_have_rows(st: AppState, swarm: Option<&SwarmRuntime>, idx: int, width: int)
    requires
        thread::is_prompt(st, idx),
    ensures
        messages::message_rows(st, swarm, idx, width).len() > 0,
{
    let w: int = text::max_int(width, 1);
    assert(messages::bubble(st.agents.messages@[idx].text@, w).len() > 0);
}

proof fn run_of_rows(
    st: AppState,
    v: Seq<Row>,
    places: Seq<(int, int)>,
    pulse_on: bool,
    width: int,
    i: int,
    to: int,
    k: int,
)
    requires
        0 <= i <= to <= v.len(),
        0 <= k,
        k < places.len() ==> (i < to ==> places[k].0 >= to) && (i < to && i > 0 ==> places[k].0
            != i),
    ensures
        merged(st, v, places, pulse_on, width, i, k) == v.subrange(i, to) + merged(
            st,
            v,
            places,
            pulse_on,
            width,
            to,
            k,
        ),
    decreases to - i,
{
    if i < to {
        run_of_rows(st, v, places, pulse_on, width, i + 1, to, k);
        assert(seq![v[i]] + v.subrange(i + 1, to) =~= v.subrange(i, to));
        assert(seq![v[i]] + (v.subrange(i + 1, to) + merged(
            st,
            v,
            places,
            pulse_on,
            width,
            to,
            k,
        )) =~= v.subrange(i, to) + merged(st, v, places, pulse_on, width, to, k));
    } else {
        assert(v.subrange(i, to) =~= Seq::<Row>::empty());
        assert(Seq::<Row>::empty() + merged(st, v, places, pulse_on, width, to, k) =~= merged(
            st,
            v,
            places,
            pulse_on,
            width,
            to,
            k,
        ));
    }
}

proof fn merging_step(
    st: AppState,
    swarm: Option<&SwarmRuntime>,
    order: Seq<int>,
    pulse_on: bool,
    width: int,
    n: int,
)
    requires
        0 <= n < order.len(),
    ensures
        ({
            let all: int = order.len() as int;
            let v: Seq<Row> = rows_upto(st, swarm, order, width, all);
            let places: Seq<(int, int)> = slots_upto(st, swarm, order, width, all);
            merged(
                st,
                v,
                places,
                pulse_on,
                width,
                rows_upto(st, swarm, order, width, n).len() as int,
                slots_upto(st, swarm, order, width, n).len() as int,
            ) == thread::part(st, swarm, order[n], pulse_on, width) + merged(
                st,
                v,
                places,
                pulse_on,
                width,
                rows_upto(st, swarm, order, width, n + 1).len() as int,
                slots_upto(st, swarm, order, width, n + 1).len() as int,
            )
        }),
{
    let all: int = order.len() as int;
    let v: Seq<Row> = rows_upto(st, swarm, order, width, all);
    let places: Seq<(int, int)> = slots_upto(st, swarm, order, width, all);
    let here: Seq<Row> = messages::message_rows(st, swarm, order[n], width);
    let i: int = rows_upto(st, swarm, order, width, n).len() as int;
    let to: int = rows_upto(st, swarm, order, width, n + 1).len() as int;
    let k: int = slots_upto(st, swarm, order, width, n).len() as int;
    let next: Seq<(int, int)> = slots_upto(st, swarm, order, width, n + 1);
    rows_grow(st, swarm, order, width, n + 1, all);
    slots_grow(st, swarm, order, width, n, all);
    slots_grow(st, swarm, order, width, n + 1, all);
    assert(v.subrange(i, to) =~= here) by {
        let first: Seq<Row> = rows_upto(st, swarm, order, width, n + 1);
        assert(v.subrange(0, to) == first);
        assert forall|j: int| 0 <= j < here.len() implies v.subrange(i, to)[j] == here[j] by {
            assert(v.subrange(0, to)[i + j] == first[i + j]);
        }
    }
    if thread::is_prompt(st, order[n]) {
        assert(next.len() == k + 1);
        assert(places[k] == next[k]);
        assert(places[k].0 == to);
        prompts_have_rows(st, swarm, order[n], width);
    } else {
        assert(next.len() == k);
        if k < places.len() {
            assert(places[k].0 > to);
        }
    }
    run_of_rows(st, v, places, pulse_on, width, i, to, k);
    let rest: Seq<Row> = merged(st, v, places, pulse_on, width, to, next.len() as int);
    if thread::is_prompt(st, order[n]) {
        let table: Seq<Row> = thread::prompt_table(st, order[n], pulse_on, width);
        assert(here + (table + rest) =~= here + table + rest);
    } else {
        assert(here + Seq::<Row>::empty() =~= here);
    }
}

proof fn merging_from(
    st: AppState,
    swarm: Option<&SwarmRuntime>,
    order: Seq<int>,
    pulse_on: bool,
    width: int,
    n: int,
)
    requires
        0 <= n <= order.len(),
    ensures
        ({
            let all: int = order.len() as int;
            thread::body(st, swarm, order, pulse_on, width) == thread::body_upto(
                st,
                swarm,
                order,
                pulse_on,
                width,
                n,
            ) + merged(
                st,
                rows_upto(st, swarm, order, width, all),
                slots_upto(st, swarm, order, width, all),
                pulse_on,
                width,
                rows_upto(st, swarm, order, width, n).len() as int,
                slots_upto(st, swarm, order, width, n).len() as int,
            )
        }),
    decreases order.len() - n,
{
    let all: int = order.len() as int;
    let v: Seq<Row> = rows_upto(st, swarm, order, width, all);
    let places: Seq<(int, int)> = slots_upto(st, swarm, order, width, all);
    let before: Seq<Row> = thread::body_upto(st, swarm, order, pulse_on, width, n);
    if n == all {
        assert(merged(
            st,
            v,
            places,
            pulse_on,
            width,
            v.len() as int,
            places.len() as int,
        ) =~= Seq::<Row>::empty());
        assert(before + Seq::<Row>::empty() =~= before);
    } else {
        merging_from(st, swarm, order, pulse_on, width, n + 1);
        merging_step(st, swarm, order, pulse_on, width, n);
        let here: Seq<Row> = thread::part(st, swarm, order[n], pulse_on, width);
        let rest: Seq<Row> = merged(
            st,
            v,
            places,
            pulse_on,
            width,
            rows_upto(st, swarm, order, width, n + 1).len() as int,
            slots_upto(st, swarm, order, width, n + 1).len() as int,
        );
        assert(before + here + rest =~= before + (here + rest));
    }
}

/// Keeping rows changes nothing: fresh ones with the tables put in are the messages and the agents
/// at work on them.
pub proof fn merging_rebuilds_the_transcript(
    cache: RowsCache,
    st: AppState,
    swarm: Option<&SwarmRuntime>,
    pulse_on: bool,
    width: int,
)
    requires
        is_fresh(cache, st, swarm, width),
    ensures
        merged(st, rows::rows(cache.rows@), slots(cache.slots@), pulse_on, width, 0, 0)
            == thread::body(st, swarm, order(st), pulse_on, width),
{
    merging_from(st, swarm, order(st), pulse_on, width, 0);
    let all: Seq<Row> = merged(
        st,
        rows::rows(cache.rows@),
        slots(cache.slots@),
        pulse_on,
        width,
        0,
        0,
    );
    assert(Seq::<Row>::empty() + all =~= all);
}

} // verus!
