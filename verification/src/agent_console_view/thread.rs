//! The transcript: messages, the agents at work below their prompts, and the table of all others.

use vstd::prelude::*;

use crate::agent_console_view::breather;
use crate::agent_console_view::footer;
use crate::agent_console_view::messages;
use crate::agent_console_view::rows;
use crate::agent_console_view::rows::Row;
use crate::agent_console_view::rows::ThreadRow;
use crate::agent_console_view::rows::ThreadRowKind;
use crate::agent_console_view::stages;
use crate::agent_console_view::turns;
use crate::state;
use crate::state::AppState;
use crate::state::SwarmRuntime;
use crate::text;

verus! {

/// The table of the agents that are at work on the prompt at `prompt`.
pub open spec fn prompt_table(st: AppState, prompt: int, pulse_on: bool, width: int) -> Seq<Row> {
    let ids: Seq<Seq<char>> = turns::on_prompt(st, prompt);
    if ids.len() > 0 {
        breather::inline_rows(st, ids, pulse_on, width)
    } else {
        Seq::empty()
    }
}

fn push_prompt_table(
    out: &mut Vec<ThreadRow>,
    st: &AppState,
    prompt: usize,
    pulse_on: bool,
    width: usize,
)
    ensures
        rows::rows(final(out)@) == rows::rows(old(out)@) + prompt_table(
            *st,
            prompt as int,
            pulse_on,
            width as int,
        ),
{
    broadcast use rows::group_rows;

    let ids: Vec<String> = turns::agents_on_prompt(st, prompt);
    assert(text::texts(ids@).len() == ids@.len());
    if ids.len() > 0 {
        rows::append_rows(out, breather::inline_breather_rows(st, &ids, pulse_on, width));
    }
}

/// Whether the message at `idx` is a prompt of the user.
pub open spec fn is_prompt(st: AppState, idx: int) -> bool {
    st.agents.messages@[idx].agent_id is None
}

/// A message and, where it is a prompt, the agents at work on it.
pub open spec fn part(
    st: AppState,
    swarm: Option<&SwarmRuntime>,
    idx: int,
    pulse_on: bool,
    width: int,
) -> Seq<Row> {
    messages::message_rows(st, swarm, idx, width) + (if is_prompt(st, idx) {
        prompt_table(st, idx, pulse_on, width)
    } else {
        Seq::empty()
    })
}

/// The first `n` messages, in the order in which they are shown.
pub open spec fn body_upto(
    st: AppState,
    swarm: Option<&SwarmRuntime>,
    order: Seq<int>,
    pulse_on: bool,
    width: int,
    n: int,
) -> Seq<Row>
    decreases n,
{
    if n <= 0 {
        Seq::empty()
    } else {
        body_upto(st, swarm, order, pulse_on, width, n - 1) + part(
            st,
            swarm,
            order[n - 1],
            pulse_on,
            width,
        )
    }
}

/// The messages that are shown and the agents at work on them.
pub open spec fn body(
    st: AppState,
    swarm: Option<&SwarmRuntime>,
    order: Seq<int>,
    pulse_on: bool,
    width: int,
) -> Seq<Row> {
    body_upto(st, swarm, order, pulse_on, width, order.len() as int)
}

/// The agents that are shown below one of the first `n` messages.
pub open spec fn shown_upto(st: AppState, order: Seq<int>, n: int) -> Seq<Seq<char>>
    decreases n,
{
    if n <= 0 {
        Seq::empty()
    } else {
        shown_upto(st, order, n - 1) + (if is_prompt(st, order[n - 1]) {
            turns::on_prompt(st, order[n - 1])
        } else {
            Seq::empty()
        })
    }
}

/// Whether an agent at work is not shown yet, among those that the chosen agent is about.
pub open spec fn some_left(st: AppState, shown: Seq<Seq<char>>, chosen: Option<Seq<char>>) -> bool {
    exists|i: int|
        0 <= i < st.agents.agents@.len() && ({
            let id: Seq<char> = (#[trigger] st.agents.agents@[i]).id@;
            !shown.contains(id) && turns::busy(st, id) && (match chosen {
                Some(c) => turns::is_or_copies(st, id, c),
                None => true,
            })
        })
}

pub fn is_some_left(st: &AppState, shown: &Vec<String>, chosen: Option<&str>) -> (r: bool)
    ensures
        r == some_left(*st, text::texts(shown@), text::opt_str(chosen)),
{
    let ghost all: Seq<Seq<char>> = text::texts(shown@);
    let mut i: usize = 0;
    while i < st.agents.agents.len()
        invariant
            i <= st.agents.agents@.len(),
            all == text::texts(shown@),
            forall|j: int|
                0 <= j < i ==> !({
                    let id: Seq<char> = (#[trigger] st.agents.agents@[j]).id@;
                    !all.contains(id) && turns::busy(*st, id) && (match text::opt_str(chosen) {
                        Some(c) => turns::is_or_copies(*st, id, c),
                        None => true,
                    })
                }),
        decreases st.agents.agents@.len() - i,
    {
        let id: &str = st.agents.agents[i].id.as_str();
        let about: bool = match chosen {
            Some(c) => turns::is_same_or_copy(st, id, c),
            None => true,
        };
        if !breather::is_among(shown, id) && turns::is_busy(st, id) && about {
            return true;
        }
        i += 1;
    }
    false
}

/// Whether the row at `i` belongs to a table: a header, a row below it, or the lines of detail
/// right below one of these.
pub open spec fn in_table(v: Seq<Row>, i: int) -> bool
    decreases i + 1,
{
    if i < 0 || i >= v.len() {
        false
    } else if v[i].kind is StatusSubRow {
        in_table(v, i - 1)
    } else {
        v[i].kind is StatusHeader || v[i].kind is StatusRow
    }
}

/// Whether the row at `i` tells what became of a turn.
pub open spec fn callout(v: Seq<Row>, i: int) -> bool {
    v[i].kind is ArtifactLink || v[i].kind is Agent || (v[i].kind is StatusSubRow && !in_table(v, i))
}

/// Where the last header stands among the first `n` rows.
pub open spec fn last_header(v: Seq<Row>, n: int) -> Option<int>
    decreases n,
{
    if n <= 0 || n > v.len() {
        None
    } else if v[n - 1].kind is StatusHeader {
        Some(n - 1)
    } else {
        last_header(v, n - 1)
    }
}

/// The places from `from` up to `n` whose rows are callouts, or those whose rows are not.
pub open spec fn sorted_out(v: Seq<Row>, callouts: bool, from: int, n: int) -> Seq<int>
    decreases n - from,
{
    if n <= from {
        Seq::empty()
    } else {
        let before: Seq<int> = sorted_out(v, callouts, from, n - 1);
        if callout(v, n - 1) == callouts {
            before.push(n - 1)
        } else {
            before
        }
    }
}

/// The first `n` places.
pub open spec fn first_places(n: int) -> Seq<int> {
    Seq::new(n as nat, |i: int| i)
}

/// The places of the rows in the order in which they are shown: the callouts behind the last
/// header are moved before it.
pub open spec fn shown_places(v: Seq<Row>) -> Seq<int> {
    let n: int = v.len() as int;
    match last_header(v, n) {
        Some(b) => first_places(b) + sorted_out(v, true, b, n) + sorted_out(v, false, b, n),
        None => first_places(n),
    }
}

/// The rows at some places.
pub open spec fn rows_at(v: Seq<Row>, places: Seq<int>) -> Seq<Row> {
    Seq::new(places.len(), |i: int| v[places[i]])
}

/// The rows with the callouts behind the last header moved before it.
pub open spec fn hoisted(v: Seq<Row>) -> Seq<Row> {
    rows_at(v, shown_places(v))
}

fn is_header(r: &ThreadRow) -> (b: bool)
    ensures
        b == (r@.kind is StatusHeader),
{
    match r.kind {
        ThreadRowKind::StatusHeader => true,
        _ => false,
    }
}

fn is_detail(r: &ThreadRow) -> (b: bool)
    ensures
        b == (r@.kind is StatusSubRow),
{
    match r.kind {
        ThreadRowKind::StatusSubRow => true,
        _ => false,
    }
}

fn is_table_row(r: &ThreadRow) -> (b: bool)
    ensures
        b == (r@.kind is StatusHeader || r@.kind is StatusRow),
{
    match r.kind {
        ThreadRowKind::StatusHeader => true,
        ThreadRowKind::StatusRow => true,
        _ => false,
    }
}

fn is_end_of_turn(r: &ThreadRow) -> (b: bool)
    ensures
        b == (r@.kind is ArtifactLink || r@.kind is Agent),
{
    match r.kind {
        ThreadRowKind::ArtifactLink => true,
        ThreadRowKind::Agent => true,
        _ => false,
    }
}

fn is_callout(v: &Vec<ThreadRow>, i: usize) -> (b: bool)
    requires
        i < v@.len(),
    ensures
        b == callout(rows::rows(v@), i as int),
{
    let ghost all: Seq<Row> = rows::rows(v@);
    assert(all[i as int] == v@[i as int]@);
    if is_end_of_turn(&v[i]) {
        return true;
    }
    if !is_detail(&v[i]) {
        return false;
    }
    let mut k: usize = i;
    while k > 0 && is_detail(&v[k])
        invariant
            k <= i < v@.len(),
            all == rows::rows(v@),
            in_table(all, i as int) == in_table(all, k as int),
        decreases k,
    {
        assert(all[k as int] == v@[k as int]@);
        k -= 1;
    }
    assert(all[k as int] == v@[k as int]@);
    assert(!in_table(all, -1));
    is_detail(&v[k]) || !is_table_row(&v[k])
}

fn push_sorted(out: &mut Vec<usize>, v: &Vec<ThreadRow>, callouts: bool, from: usize)
    requires
        from <= v@.len(),
    ensures
        messages::ints(final(out)@) == messages::ints(old(out)@) + sorted_out(
            rows::rows(v@),
            callouts,
            from as int,
            v@.len() as int,
        ),
{
    let ghost before: Seq<int> = messages::ints(out@);
    let ghost all: Seq<Row> = rows::rows(v@);
    let mut i: usize = from;
    assert(before + sorted_out(all, callouts, from as int, i as int) =~= before);
    while i < v.len()
        invariant
            from <= i <= v@.len(),
            all == rows::rows(v@),
            messages::ints(out@) == before + sorted_out(all, callouts, from as int, i as int),
        decreases v@.len() - i,
    {
        let ghost so_far: Seq<int> = sorted_out(all, callouts, from as int, i as int);
        let ghost held: Seq<usize> = out@;
        if is_callout(v, i) == callouts {
            out.push(i);
            assert(messages::ints(out@) =~= messages::ints(held).push(i as int));
            assert(messages::ints(held).push(i as int) =~= before + so_far.push(i as int));
        }
        i += 1;
    }
}

fn places_shown(v: &Vec<ThreadRow>) -> (r: Vec<usize>)
    ensures
        messages::ints(r@) == shown_places(rows::rows(v@)),
{
    let ghost all: Seq<Row> = rows::rows(v@);
    let mut n: usize = v.len();
    while n > 0 && !is_header(&v[n - 1])
        invariant
            n <= v@.len(),
            all == rows::rows(v@),
            last_header(all, all.len() as int) == last_header(all, n as int),
        decreases n,
    {
        assert(all[n - 1] == v@[n - 1]@);
        n -= 1;
    }
    let above: usize = if n == 0 {
        v.len()
    } else {
        n - 1
    };
    assert(n > 0 ==> all[n - 1] == v@[n - 1]@);
    let mut out: Vec<usize> = Vec::new();
    let mut i: usize = 0;
    while i < above
        invariant
            i <= above,
            messages::ints(out@) == first_places(i as int),
        decreases above - i,
    {
        let ghost held: Seq<usize> = out@;
        out.push(i);
        i += 1;
        assert(messages::ints(out@) =~= messages::ints(held).push(i - 1));
        assert(first_places(i as int) =~= first_places(i - 1).push(i - 1));
    }
    if n > 0 {
        push_sorted(&mut out, v, true, above);
        push_sorted(&mut out, v, false, above);
    }
    out
}

/// Moves what tells what became of a turn, where it stands behind the last header, before it.
pub fn hoist_stale_callouts_above_breather(v: Vec<ThreadRow>) -> (r: Vec<ThreadRow>)
    ensures
        rows::rows(r@) == hoisted(rows::rows(v@)),
{
    let ghost all: Seq<Row> = rows::rows(v@);
    let places: Vec<usize> = places_shown(&v);
    let ghost order: Seq<int> = messages::ints(places@);
    let mut out: Vec<ThreadRow> = Vec::new();
    let mut i: usize = 0;
    assert(rows::rows(out@) =~= hoisted(all).take(0));
    proof {
        places_are_of_rows(all);
    }
    while i < places.len()
        invariant
            i <= places@.len(),
            all == rows::rows(v@),
            order == messages::ints(places@),
            order == shown_places(all),
            forall|k: int| 0 <= k < order.len() ==> 0 <= #[trigger] order[k] < all.len(),
            rows::rows(out@) == hoisted(all).take(i as int),
        decreases places@.len() - i,
    {
        assert(0 <= order[i as int] < all.len());
        let p: usize = places[i];
        let ghost held: Seq<Row> = rows::rows(out@);
        let ThreadRow { text, kind } = v[p].copy();
        rows::push_row(&mut out, text, kind);
        assert(all[p as int] == v@[p as int]@);
        i += 1;
        assert(hoisted(all).take(i as int) =~= hoisted(all).take(i - 1) + seq![all[p as int]]);
    }
    assert(hoisted(all).take(i as int) =~= hoisted(all));
    out
}

proof fn sorting_out_keeps_places(v: Seq<Row>, from: int, n: int)
    requires
        0 <= from <= n <= v.len(),
    ensures
        (sorted_out(v, true, from, n) + sorted_out(v, false, from, n)).to_multiset()
            =~= first_places(n).subrange(from, n).to_multiset(),
        forall|callouts: bool, k: int|
            0 <= k < sorted_out(v, callouts, from, n).len() ==> from
                <= #[trigger] sorted_out(v, callouts, from, n)[k] < n && callout(
                v,
                sorted_out(v, callouts, from, n)[k],
            ) == callouts,
        forall|callouts: bool, i: int, j: int|
            0 <= i < j < sorted_out(v, callouts, from, n).len() ==> #[trigger] sorted_out(
                v,
                callouts,
                from,
                n,
            )[i] < #[trigger] sorted_out(v, callouts, from, n)[j],
    decreases n - from,
{
    broadcast use vstd::seq_lib::group_to_multiset_ensures;

    let a: Seq<int> = sorted_out(v, true, from, n);
    let b: Seq<int> = sorted_out(v, false, from, n);
    vstd::seq_lib::lemma_multiset_commutative(a, b);
    if from < n {
        sorting_out_keeps_places(v, from, n - 1);
        let a0: Seq<int> = sorted_out(v, true, from, n - 1);
        let b0: Seq<int> = sorted_out(v, false, from, n - 1);
        vstd::seq_lib::lemma_multiset_commutative(a0, b0);
        assert(first_places(n).subrange(from, n) =~= first_places(n - 1).subrange(from, n - 1).push(
            n - 1,
        ));
    } else {
        assert(first_places(n).subrange(from, n) =~= Seq::<int>::empty());
        assert(a + b =~= Seq::<int>::empty());
    }
}

proof fn header_is_in(v: Seq<Row>, n: int)
    requires
        0 <= n <= v.len(),
    ensures
        last_header(v, n) matches Some(b) ==> 0 <= b < n && v[b].kind is StatusHeader,
    decreases n,
{
    if n > 0 && !(v[n - 1].kind is StatusHeader) {
        header_is_in(v, n - 1);
    }
}

proof fn places_are_of_rows(v: Seq<Row>)
    ensures
        forall|k: int|
            0 <= k < shown_places(v).len() ==> 0 <= #[trigger] shown_places(v)[k] < v.len(),
{
    let n: int = v.len() as int;
    header_is_in(v, n);
    if let Some(b) = last_header(v, n) {
        sorting_out_keeps_places(v, b, n);
    }
}

/// Moving the callouts shows every row once.
pub proof fn hoisting_keeps_rows(v: Seq<Row>)
    ensures
        shown_places(v).to_multiset() =~= first_places(v.len() as int).to_multiset(),
        hoisted(v).len() == v.len(),
{
    let n: int = v.len() as int;
    let all: Seq<int> = first_places(n);
    header_is_in(v, n);
    if let Some(b) = last_header(v, n) {
        let a: Seq<int> = sorted_out(v, true, b, n);
        let c: Seq<int> = sorted_out(v, false, b, n);
        sorting_out_keeps_places(v, b, n);
        vstd::seq_lib::lemma_multiset_commutative(first_places(b), a + c);
        vstd::seq_lib::lemma_multiset_commutative(first_places(b), all.subrange(b, n));
        assert(first_places(b) + a + c =~= first_places(b) + (a + c));
        assert(first_places(b) + all.subrange(b, n) =~= all);
        broadcast use vstd::seq_lib::group_to_multiset_ensures;

        assert(shown_places(v).to_multiset().len() == shown_places(v).len());
        assert(all.to_multiset().len() == all.len());
    }
}

/// Once they are moved, no callout stands behind the last header, and the rows from there on keep
/// their order.
pub proof fn no_callout_below_last_table(v: Seq<Row>, k: int)
    requires
        last_header(v, v.len() as int) is Some,
        ({
            let b: int = last_header(v, v.len() as int)->0;
            b + sorted_out(v, true, b, v.len() as int).len() <= k < hoisted(v).len()
        }),
    ensures
        ({
            let b: int = last_header(v, v.len() as int)->0;
            let head: int = b + sorted_out(v, true, b, v.len() as int).len();
            &&& hoisted(v)[head] == v[b] && v[b].kind is StatusHeader
            &&& hoisted(v)[k] == v[shown_places(v)[k]] && !callout(v, shown_places(v)[k])
            &&& head < k ==> shown_places(v)[k - 1] < shown_places(v)[k]
        }),
{
    let n: int = v.len() as int;
    header_is_in(v, n);
    let b: int = last_header(v, n)->0;
    sorting_out_keeps_places(v, b, n);
    let c: Seq<int> = sorted_out(v, false, b, n);
    let head: int = b + sorted_out(v, true, b, n).len();
    assert(shown_places(v)[k] == c[k - head]);
    header_comes_first(v, b, n);
    if head < k {
        assert(shown_places(v)[k - 1] == c[k - 1 - head]);
    }
    assert(shown_places(v)[head] == c[0]);
}

proof fn nothing_is_sorted_out(v: Seq<Row>, b: int, n: int)
    requires
        0 <= b <= n <= v.len(),
        forall|i: int| b <= i < n ==> !callout(v, i),
    ensures
        sorted_out(v, true, b, n) == Seq::<int>::empty(),
        sorted_out(v, false, b, n) == first_places(n).subrange(b, n),
    decreases n - b,
{
    if b < n {
        nothing_is_sorted_out(v, b, n - 1);
        assert(!callout(v, n - 1));
        assert(first_places(n).subrange(b, n) =~= first_places(n - 1).subrange(b, n - 1).push(
            n - 1,
        ));
    } else {
        assert(first_places(n).subrange(b, n) =~= Seq::<int>::empty());
    }
}

/// Where no callout stands behind the last header, all rows stay where they are.
pub proof fn rows_stay_without_callouts(v: Seq<Row>)
    requires
        last_header(v, v.len() as int) matches Some(b) ==> forall|i: int|
            b <= i < v.len() ==> !callout(v, i),
    ensures
        hoisted(v) == v,
{
    let n: int = v.len() as int;
    header_is_in(v, n);
    if let Some(b) = last_header(v, n) {
        nothing_is_sorted_out(v, b, n);
        assert(shown_places(v) =~= first_places(n));
    }
    assert(hoisted(v) =~= v);
}

proof fn header_comes_first(v: Seq<Row>, b: int, n: int)
    requires
        0 <= b < n <= v.len(),
        v[b].kind is StatusHeader,
    ensures
        sorted_out(v, false, b, n).len() > 0,
        sorted_out(v, false, b, n)[0] == b,
    decreases n,
{
    if b < n - 1 {
        header_comes_first(v, b, n - 1);
    } else {
        assert(sorted_out(v, false, b, n - 1) =~= Seq::<int>::empty());
    }
}

/// The transcript before callouts are moved.
pub open spec fn unhoisted(
    st: AppState,
    swarm: Option<&SwarmRuntime>,
    width: int,
    pulse_on: bool,
) -> Seq<Row> {
    let agent: Option<Seq<char>> = text::opt_text(st.agents.context_agent);
    let order: Seq<int> = messages::grouped(st, text::opt_text(st.agents.context_mission), agent);
    body(st, swarm, order, pulse_on, width) + (if some_left(
        st,
        shown_upto(st, order, order.len() as int),
        agent,
    ) || turns::swarm_is_open(st) {
        breather::table_rows(st, swarm, pulse_on, width)
    } else {
        Seq::empty()
    })
}

fn push_texts(out: &mut Vec<String>, more: Vec<String>)
    ensures
        text::texts(final(out)@) == text::texts(old(out)@) + text::texts(more@),
{
    let ghost before: Seq<String> = out@;
    let mut rest: Vec<String> = more;
    out.append(&mut rest);
    assert(text::texts(out@) =~= text::texts(before) + text::texts(more@));
}

/// The message that each of some rows links to: the first row of a message that has a link.
pub open spec fn links_of(
    st: AppState,
    swarm: Option<&SwarmRuntime>,
    idx: int,
    width: int,
    count: int,
) -> Seq<Option<int>> {
    Seq::new(
        count as nat,
        |j: int|
            if j == 0 && linked(messages::message_rows(st, swarm, idx, width)) {
                Some(idx)
            } else {
                None
            },
    )
}

/// The message that each row of the first `n` messages links to.
pub open spec fn links_upto(
    st: AppState,
    swarm: Option<&SwarmRuntime>,
    order: Seq<int>,
    pulse_on: bool,
    width: int,
    n: int,
) -> Seq<Option<int>>
    decreases n,
{
    if n <= 0 {
        Seq::empty()
    } else {
        links_upto(st, swarm, order, pulse_on, width, n - 1) + links_of(
            st,
            swarm,
            order[n - 1],
            width,
            part(st, swarm, order[n - 1], pulse_on, width).len() as int,
        )
    }
}

/// The order in which the messages are shown.
pub open spec fn shown_order(st: AppState) -> Seq<int> {
    messages::grouped(
        st,
        text::opt_text(st.agents.context_mission),
        text::opt_text(st.agents.context_agent),
    )
}

/// Links as numbers without bounds.
pub open spec fn int_links(v: Seq<Option<usize>>) -> Seq<Option<int>> {
    Seq::new(
        v.len(),
        |i: int|
            match v[i] {
                Some(k) => Some(k as int),
                None => None,
            },
    )
}

fn push_links(out: &mut Vec<Option<usize>>, link: Option<usize>, count: usize)
    ensures
        int_links(final(out)@) == int_links(old(out)@) + Seq::new(
            count as nat,
            |j: int|
                if j == 0 && link is Some {
                    Some(link->0 as int)
                } else {
                    None
                },
        ),
{
    let ghost want: Seq<Option<int>> = Seq::new(
        count as nat,
        |j: int|
            if j == 0 && link is Some {
                Some(link->0 as int)
            } else {
                None
            },
    );
    let ghost before: Seq<Option<int>> = int_links(out@);
    let mut i: usize = 0;
    assert(before + want.take(0) =~= before);
    while i < count
        invariant
            i <= count == want.len(),
            forall|j: int|
                0 <= j < want.len() ==> #[trigger] want[j] == (if j == 0 && link is Some {
                    Some(link->0 as int)
                } else {
                    None
                }),
            int_links(out@) == before + want.take(i as int),
        decreases count - i,
    {
        let ghost held: Seq<Option<usize>> = out@;
        out.push(
            if i == 0 {
                link
            } else {
                None
            },
        );
        i += 1;
        assert(int_links(out@) =~= int_links(held).push(want[i - 1]));
        assert(want.take(i as int) =~= want.take(i - 1).push(want[i - 1]));
        assert(int_links(held).push(want[i - 1]) =~= before + want.take(i as int));
    }
    assert(want.take(i as int) =~= want);
}

fn rows_and_links(
    st: &AppState,
    swarm: Option<&SwarmRuntime>,
    width: usize,
    pulse_on: bool,
) -> (r: (Vec<ThreadRow>, Vec<Option<usize>>))
    ensures
        rows::rows(r.0@) == unhoisted(*st, swarm, width as int, pulse_on),
        int_links(r.1@) == links_upto(
            *st,
            swarm,
            shown_order(*st),
            pulse_on,
            width as int,
            shown_order(*st).len() as int,
        ),
{
    broadcast use {rows::group_rows, text::group_line_lists};

    let mission: Option<&str> = state::as_str(&st.agents.context_mission);
    let agent: Option<&str> = state::as_str(&st.agents.context_agent);
    let order: Vec<usize> = messages::visible_messages_grouped(st, mission, agent);
    let ghost places: Seq<int> = messages::ints(order@);
    let mut shown: Vec<String> = Vec::new();
    let mut out: Vec<ThreadRow> = Vec::new();
    let mut links: Vec<Option<usize>> = Vec::new();
    assert(text::texts(shown@) =~= Seq::<Seq<char>>::empty());
    assert(int_links(links@) =~= Seq::<Option<int>>::empty());
    let mut i: usize = 0;
    while i < order.len()
        invariant
            i <= order@.len(),
            places == messages::ints(order@),
            forall|k: int| 0 <= k < order@.len() ==> (#[trigger] order@[k])
                < st.agents.messages@.len(),
            text::texts(shown@) == shown_upto(*st, places, i as int),
            rows::rows(out@) == body_upto(*st, swarm, places, pulse_on, width as int, i as int),
            int_links(links@) == links_upto(
                *st,
                swarm,
                places,
                pulse_on,
                width as int,
                i as int,
            ),
        decreases order@.len() - i,
    {
        broadcast use {rows::group_rows, text::group_line_lists};

        let idx: usize = order[i];
        assert(places[i as int] == idx);
        let mut here: Vec<ThreadRow> = messages::format_message_rows(st, swarm, idx, width);
        let link: Option<usize> = if is_linked(&here) {
            Some(idx)
        } else {
            None
        };
        if st.agents.messages[idx].agent_id.is_none() {
            push_prompt_table(&mut here, st, idx, pulse_on, width);
            push_texts(&mut shown, turns::agents_on_prompt(st, idx));
        }
        assert(rows::rows(here@).len() == here@.len());
        push_links(&mut links, link, here.len());
        proof {
            assert(rows::rows(here@) == part(*st, swarm, idx as int, pulse_on, width as int));
            let count: int = here@.len() as int;
            assert(links_of(*st, swarm, idx as int, width as int, count) =~= Seq::new(
                count as nat,
                |j: int|
                    if j == 0 && link is Some {
                        Some(link->0 as int)
                    } else {
                        None
                    },
            ));
        }
        rows::append_rows(&mut out, here);
        i += 1;
    }
    assert(places.len() == order@.len());
    if is_some_left(st, &shown, agent) || turns::is_swarm_open(st) {
        rows::append_rows(
            &mut out,
            breather::breather_rows_for_user_prompt(st, swarm, pulse_on, width),
        );
    }
    (out, links)
}

pub fn thread_rows(
    st: &AppState,
    swarm: Option<&SwarmRuntime>,
    width: usize,
    pulse_on: bool,
) -> (r: Vec<ThreadRow>)
    ensures
        rows::rows(r@) == hoisted(unhoisted(*st, swarm, width as int, pulse_on)),
{
    hoist_stale_callouts_above_breather(rows_and_links(st, swarm, width, pulse_on).0)
}

fn texts_from(v: Vec<ThreadRow>) -> (r: Vec<String>)
    ensures
        text::texts(r@) == rows::texts_of(rows::rows(v@)),
{
    broadcast use text::group_texts;

    let ghost want: Seq<Seq<char>> = rows::texts_of(rows::rows(v@));
    let mut out: Vec<String> = Vec::new();
    let mut i: usize = 0;
    assert(text::texts(out@) =~= want.take(0));
    while i < v.len()
        invariant
            i <= v@.len(),
            want == rows::texts_of(rows::rows(v@)),
            text::texts(out@) == want.take(i as int),
        decreases v@.len() - i,
    {
        broadcast use text::group_texts;

        assert(rows::rows(v@)[i as int] == v@[i as int]@);
        out.push(v[i].text.clone());
        i += 1;
        assert(want.take(i as int) =~= want.take(i - 1).push(want[i - 1]));
    }
    assert(want.take(i as int) =~= want);
    out
}

pub fn thread_lines_for_selection(st: &AppState, width: usize) -> (r: Vec<String>)
    ensures
        text::texts(r@) == rows::texts_of(
            hoisted(
                unhoisted(
                    *st,
                    None,
                    text::max_int(width as int, 1),
                    stages::pulse_on(st.frame_count),
                ),
            ),
        ),
{
    texts_from(thread_rows(st, None, text::max_of(width, 1), stages::pulse_on(st.frame_count)))
}

pub fn thread_lines_for_selection_with_swarm(st: &AppState, swarm: &SwarmRuntime, width: usize) -> (r:
    Vec<String>)
    ensures
        text::texts(r@) == rows::texts_of(
            hoisted(
                unhoisted(
                    *st,
                    Some(swarm),
                    text::max_int(width as int, 1),
                    stages::pulse_on(st.frame_count),
                ),
            ),
        ),
{
    texts_from(
        thread_rows(st, Some(swarm), text::max_of(width, 1), stages::pulse_on(st.frame_count)),
    )
}

/// Whether the first of some rows links to an artifact.
pub open spec fn linked(v: Seq<Row>) -> bool {
    v.len() > 0 && v[0].kind is ArtifactLink
}

/// The message whose link is shown in a row.
pub open spec fn linked_message(
    st: AppState,
    swarm: Option<&SwarmRuntime>,
    given: int,
    line: int,
) -> Option<int> {
    let width: int = text::max_int(given, 1);
    let pulse_on: bool = stages::pulse_on(st.frame_count);
    let order: Seq<int> = shown_order(st);
    let links: Seq<Option<int>> = links_upto(
        st,
        swarm,
        order,
        pulse_on,
        width,
        order.len() as int,
    );
    let places: Seq<int> = shown_places(unhoisted(st, swarm, width, pulse_on));
    if 0 <= line < places.len() && places[line] < links.len() {
        links[places[line]]
    } else {
        None
    }
}

fn is_linked(v: &Vec<ThreadRow>) -> (r: bool)
    ensures
        r == linked(rows::rows(v@)),
{
    if v.len() == 0 {
        return false;
    }
    assert(rows::rows(v@)[0] == v@[0]@);
    match v[0].kind {
        ThreadRowKind::ArtifactLink => true,
        _ => false,
    }
}

pub fn artifact_message_index_for_line_with_swarm(
    st: &AppState,
    swarm: Option<&SwarmRuntime>,
    given: usize,
    line_idx: usize,
) -> (r: Option<usize>)
    ensures
        match r {
            Some(k) => linked_message(*st, swarm, given as int, line_idx as int) == Some(k as int),
            None => linked_message(*st, swarm, given as int, line_idx as int) is None,
        },
{
    let (v, links) = rows_and_links(
        st,
        swarm,
        text::max_of(given, 1),
        stages::pulse_on(st.frame_count),
    );
    let places: Vec<usize> = places_shown(&v);
    assert(messages::ints(places@).len() == places@.len());
    assert(int_links(links@).len() == links@.len());
    if line_idx >= places.len() {
        return None;
    }
    let p: usize = places[line_idx];
    assert(messages::ints(places@)[line_idx as int] == p);
    if p >= links.len() {
        return None;
    }
    assert(int_links(links@)[p as int] == match links@[p as int] {
        Some(k) => Some(k as int),
        None => None,
    });
    links[p]
}

pub fn artifact_message_index_for_line(st: &AppState, width: usize, line_idx: usize) -> (r: Option<
    usize,
>)
    ensures
        match r {
            Some(k) => linked_message(*st, None, width as int, line_idx as int) == Some(k as int),
            None => linked_message(*st, None, width as int, line_idx as int) is None,
        },
{
    artifact_message_index_for_line_with_swarm(st, None, width, line_idx)
}

proof fn table_has_no_link(st: AppState, prompt: int, pulse_on: bool, width: int, k: int)
    requires
        0 <= k < prompt_table(st, prompt, pulse_on, width).len(),
    ensures
        !(prompt_table(st, prompt, pulse_on, width)[k].kind is ArtifactLink),
{
    let ids: Seq<Seq<char>> = turns::on_prompt(st, prompt);
    let w: int = text::max_int(width, 1);
    if k >= 2 {
        agents_have_no_link(st, ids, w, ids.len() as int, k - 2);
    }
}

proof fn agents_have_no_link(st: AppState, ids: Seq<Seq<char>>, width: int, n: int, k: int)
    requires
        0 <= k < breather::inline_agents(st, ids, width, n).len(),
    ensures
        !(breather::inline_agents(st, ids, width, n)[k].kind is ArtifactLink),
    decreases n,
{
    if k < breather::inline_agents(st, ids, width, n - 1).len() {
        agents_have_no_link(st, ids, width, n - 1, k);
    }
}

/// Whether none of some rows is a link.
spec fn no_links(v: Seq<Row>) -> bool {
    forall|k: int| 0 <= k < v.len() ==> !((#[trigger] v[k]).kind is ArtifactLink)
}

proof fn footer_has_no_link(st: AppState, mission: Seq<char>, working: bool, width: int)
    ensures
        no_links(footer::footer_rows(st, mission, working, width)),
{
    if let Some(m) = footer::footer(st, mission) {
        reveal(footer::entries);
        assert(no_links(footer::entries(m, working, width)));
    }
}

proof fn table_agents_have_no_link(st: AppState, ids: Seq<Seq<char>>, width: int, n: int)
    ensures
        no_links(breather::table_agents(st, ids, width, n)),
    decreases n,
{
    if n > 0 {
        table_agents_have_no_link(st, ids, width, n - 1);
    }
}

proof fn table_below_has_no_link(
    st: AppState,
    swarm: Option<&SwarmRuntime>,
    pulse_on: bool,
    given: int,
)
    ensures
        no_links(breather::table_rows(st, swarm, pulse_on, given)),
{
    let width: int = text::max_int(given, 1);
    let ids: Seq<Seq<char>> = breather::ordered(st);
    let working: bool = breather::any_active(st, ids) || breather::any_queued(st, ids);
    table_agents_have_no_link(st, ids, width, ids.len() as int);
    footer_has_no_link(st, st.agents.context_mission->0@, working, width);
}

/// What holds of the links of the first `n` messages.
proof fn links_match(
    st: AppState,
    swarm: Option<&SwarmRuntime>,
    order: Seq<int>,
    pulse_on: bool,
    width: int,
    n: int,
    at: int,
)
    requires
        0 <= n <= order.len(),
    ensures
        ({
            let links: Seq<Option<int>> = links_upto(st, swarm, order, pulse_on, width, n);
            let all: Seq<Row> = body_upto(st, swarm, order, pulse_on, width, n);
            &&& links.len() == all.len()
            &&& 0 <= at < all.len() ==> {
                &&& links[at] is Some <==> all[at].kind is ArtifactLink
                &&& links[at] matches Some(i) ==> is_link_of(
                    st,
                    swarm,
                    order,
                    pulse_on,
                    width,
                    at,
                    i,
                ) && all[at] == messages::message_rows(st, swarm, i, width)[0]
                    && st.agents.messages@[i].agent_id is Some
            }
        }),
    decreases n,
{
    if n > 0 {
        links_match(st, swarm, order, pulse_on, width, n - 1, at);
        let idx: int = order[n - 1];
        let before: int = body_upto(st, swarm, order, pulse_on, width, n - 1).len() as int;
        let all: Seq<Row> = body_upto(st, swarm, order, pulse_on, width, n);
        let rows_here: Seq<Row> = messages::message_rows(st, swarm, idx, width);
        if before <= at < all.len() {
            let j: int = at - before;
            assert(all[at] == part(st, swarm, idx, pulse_on, width)[j]);
            if j < rows_here.len() {
                assert(all[at] == rows_here[j]);
                if all[at].kind is ArtifactLink {
                    messages::artifact_link_comes_first(st, swarm, idx, width, j);
                }
                if j == 0 && linked(rows_here) {
                    assert(link_stands_at(st, swarm, order, pulse_on, width, n - 1, at));
                }
            } else {
                table_has_no_link(st, idx, pulse_on, width, j - rows_here.len());
                assert(all[at] == prompt_table(st, idx, pulse_on, width)[j - rows_here.len()]);
            }
        }
    }
}

/// Whether the message at place `k` of the order has a link, and its rows start at `at`.
pub open spec fn link_stands_at(
    st: AppState,
    swarm: Option<&SwarmRuntime>,
    order: Seq<int>,
    pulse_on: bool,
    width: int,
    k: int,
    at: int,
) -> bool {
    linked(messages::message_rows(st, swarm, order[k], width)) && at == body_upto(
        st,
        swarm,
        order,
        pulse_on,
        width,
        k,
    ).len()
}

/// Whether `at`, before callouts are moved, is the place of the link of the message at `i`.
pub open spec fn is_link_of(
    st: AppState,
    swarm: Option<&SwarmRuntime>,
    order: Seq<int>,
    pulse_on: bool,
    width: int,
    at: int,
    i: int,
) -> bool {
    exists|k: int|
        0 <= k < order.len() && order[k] == i && #[trigger] link_stands_at(
            st,
            swarm,
            order,
            pulse_on,
            width,
            k,
            at,
        )
}

proof fn links_are_linked(
    st: AppState,
    swarm: Option<&SwarmRuntime>,
    order: Seq<int>,
    pulse_on: bool,
    width: int,
    k: int,
    n: int,
)
    requires
        0 <= k < n <= order.len(),
        linked(messages::message_rows(st, swarm, order[k], width)),
    ensures
        ({
            let at: int = body_upto(st, swarm, order, pulse_on, width, k).len() as int;
            let links: Seq<Option<int>> = links_upto(st, swarm, order, pulse_on, width, n);
            at < links.len() && links[at] == Some(order[k])
        }),
    decreases n,
{
    let at: int = body_upto(st, swarm, order, pulse_on, width, k).len() as int;
    links_match(st, swarm, order, pulse_on, width, n - 1, at);
    if k < n - 1 {
        links_are_linked(st, swarm, order, pulse_on, width, k, n - 1);
    }
}

/// Rows and links match, as they are shown: a click on a row leads to a message exactly where the
/// row is the link of that message, and every row drawn as a link leads to one.
pub proof fn links_are_where_they_are_drawn(
    st: AppState,
    swarm: Option<&SwarmRuntime>,
    given: int,
    line: int,
    i: int,
)
    requires
        0 <= line,
    ensures
        ({
            let width: int = text::max_int(given, 1);
            let pulse_on: bool = stages::pulse_on(st.frame_count);
            let order: Seq<int> = shown_order(st);
            let all: Seq<Row> = unhoisted(st, swarm, width, pulse_on);
            &&& linked_message(st, swarm, given, line) is Some <==> line < hoisted(all).len()
                && hoisted(all)[line].kind is ArtifactLink
            &&& linked_message(st, swarm, given, line) == Some(i) <==> line < hoisted(all).len()
                && is_link_of(st, swarm, order, pulse_on, width, shown_places(all)[line], i)
            &&& linked_message(st, swarm, given, line) == Some(i) ==> hoisted(all)[line]
                == messages::message_rows(st, swarm, i, width)[0]
                && st.agents.messages@[i].agent_id is Some
        }),
{
    let width: int = text::max_int(given, 1);
    let pulse_on: bool = stages::pulse_on(st.frame_count);
    let order: Seq<int> = shown_order(st);
    let n: int = order.len() as int;
    let messages_rows: Seq<Row> = body(st, swarm, order, pulse_on, width);
    let all: Seq<Row> = unhoisted(st, swarm, width, pulse_on);
    let places: Seq<int> = shown_places(all);
    places_are_of_rows(all);
    if line < places.len() {
        let at: int = places[line];
        assert(0 <= at < all.len());
        links_match(st, swarm, order, pulse_on, width, n, at);
        if at < messages_rows.len() {
            assert(all[at] == messages_rows[at]);
        } else {
            let table: Seq<Row> = breather::table_rows(st, swarm, pulse_on, width);
            assert(all[at] == table[at - messages_rows.len()]);
            table_below_has_no_link(st, swarm, pulse_on, width);
        }
        if is_link_of(st, swarm, order, pulse_on, width, at, i) {
            let k: int = choose|k: int|
                0 <= k < order.len() && order[k] == i && #[trigger] link_stands_at(
                    st,
                    swarm,
                    order,
                    pulse_on,
                    width,
                    k,
                    at,
                );
            links_are_linked(st, swarm, order, pulse_on, width, k, n);
        }
    }
}

} // verus!
