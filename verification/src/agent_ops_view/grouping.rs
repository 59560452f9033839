//! Replies under the prompts that they answer.

use vstd::prelude::*;

use crate::counting;

verus! {

/// The place of `p` among the prompts, from place `i` on.
pub open spec fn place_from(prompts: Seq<usize>, p: usize, i: int) -> Option<int>
    decreases prompts.len() - i,
{
    if i < 0 || i >= prompts.len() {
        None
    } else if prompts[i] == p {
        Some(i)
    } else {
        place_from(prompts, p, i + 1)
    }
}

/// The last of the first `n` prompts that does not come after `reply`.
pub open spec fn nearest(prompts: Seq<usize>, reply: usize, n: int) -> Option<int>
    decreases n,
{
    if n <= 0 {
        None
    } else if prompts[n - 1] <= reply {
        Some(n - 1)
    } else {
        nearest(prompts, reply, n - 1)
    }
}

/// The prompt that a reply answers: the one that it names where that is a prompt, and the nearest
/// one before it otherwise.
pub open spec fn parent(prompts: Seq<usize>, reply: usize, hint: Option<usize>) -> Option<int> {
    let near: Option<int> = nearest(prompts, reply, prompts.len() as int);
    match hint {
        Some(p) => match place_from(prompts, p, 0) {
            Some(k) => Some(k),
            None => near,
        },
        None => near,
    }
}

/// The hint of reply `k`.
pub open spec fn hint_of(hints: Seq<Option<usize>>, k: int) -> Option<usize> {
    if 0 <= k < hints.len() {
        hints[k]
    } else {
        None
    }
}

/// The replies whose parent is `place`.
pub open spec fn answers(
    prompts: Seq<usize>,
    replies: Seq<usize>,
    hints: Seq<Option<usize>>,
    place: Option<int>,
) -> spec_fn(int) -> bool {
    |k: int| parent(prompts, replies[k], hint_of(hints, k)) == place
}

pub open spec fn replies_of(
    prompts: Seq<usize>,
    replies: Seq<usize>,
    hints: Seq<Option<usize>>,
    place: Option<int>,
) -> Seq<usize> {
    let places: Seq<int> = counting::picked(
        replies.len() as int,
        answers(prompts, replies, hints, place),
    );
    Seq::new(places.len(), |i: int| replies[places[i]])
}

/// The prompts with their replies; replies without a prompt come first.
pub open spec fn groups(prompts: Seq<usize>, replies: Seq<usize>, hints: Seq<Option<usize>>) -> Seq<
    (Option<usize>, Seq<usize>),
> {
    let orphans: Seq<usize> = replies_of(prompts, replies, hints, None);
    let first: Seq<(Option<usize>, Seq<usize>)> = if orphans.len() > 0 {
        seq![(None, orphans)]
    } else {
        Seq::empty()
    };
    first + Seq::new(
        prompts.len(),
        |p: int| (Some(prompts[p]), replies_of(prompts, replies, hints, Some(p))),
    )
}

/// What groups hold.
pub open spec fn view_groups(v: Seq<(Option<usize>, Vec<usize>)>) -> Seq<
    (Option<usize>, Seq<usize>),
> {
    Seq::new(v.len(), |i: int| (v[i].0, v[i].1@))
}

fn parent_of(prompts: &Vec<usize>, reply: usize, hint: Option<usize>) -> (r: Option<usize>)
    ensures
        match r {
            Some(k) => parent(prompts@, reply, hint) == Some(k as int),
            None => parent(prompts@, reply, hint) is None,
        },
{
    if let Some(p) = hint {
        let mut i: usize = 0;
        while i < prompts.len()
            invariant
                i <= prompts@.len(),
                place_from(prompts@, p, 0) == place_from(prompts@, p, i as int),
                hint == Some(p),
            decreases prompts@.len() - i,
        {
            if prompts[i] == p {
                return Some(i);
            }
            i += 1;
        }
    }
    let mut n: usize = prompts.len();
    while n > 0
        invariant
            n <= prompts@.len(),
            hint matches Some(p) ==> place_from(prompts@, p, 0) is None,
            nearest(prompts@, reply, prompts@.len() as int) == nearest(
                prompts@,
                reply,
                n as int,
            ),
        decreases n,
    {
        if prompts[n - 1] <= reply {
            return Some(n - 1);
        }
        n -= 1;
    }
    None
}

fn pick(
    prompts: &Vec<usize>,
    replies: &Vec<usize>,
    hints: &Vec<Option<usize>>,
    place: Option<usize>,
) -> (r: Vec<usize>)
    ensures
        r@ == replies_of(
            prompts@,
            replies@,
            hints@,
            match place {
                Some(p) => Some(p as int),
                None => None,
            },
        ),
{
    let ghost want: Option<int> = match place {
        Some(p) => Some(p as int),
        None => None,
    };
    let ghost meets = answers(prompts@, replies@, hints@, want);
    let mut out: Vec<usize> = Vec::new();
    let mut i: usize = 0;
    assert(out@ =~= Seq::new(
        counting::picked(0, meets).len(),
        |k: int| replies@[counting::picked(0, meets)[k]],
    ));
    while i < replies.len()
        invariant
            i <= replies@.len(),
            want == (match place {
                Some(p) => Some(p as int),
                None => None,
            }),
            meets == answers(prompts@, replies@, hints@, want),
            out@ == Seq::new(
                counting::picked(i as int, meets).len(),
                |k: int| replies@[counting::picked(i as int, meets)[k]],
            ),
        decreases replies@.len() - i,
    {
        let hint: Option<usize> = if i < hints.len() {
            hints[i]
        } else {
            None
        };
        let found: Option<usize> = parent_of(prompts, replies[i], hint);
        let mine: bool = match (found, place) {
            (Some(a), Some(b)) => a == b,
            (None, None) => true,
            _ => false,
        };
        assert(mine == meets(i as int));
        if mine {
            out.push(replies[i]);
        }
        i += 1;
        assert(out@ =~= Seq::new(
            counting::picked(i as int, meets).len(),
            |k: int| replies@[counting::picked(i as int, meets)[k]],
        ));
    }
    out
}

pub fn group_replies_under_prompts_with_hints(
    prompts: &Vec<usize>,
    replies: &Vec<usize>,
    hints: &Vec<Option<usize>>,
) -> (r: Vec<(Option<usize>, Vec<usize>)>)
    ensures
        view_groups(r@) == groups(prompts@, replies@, hints@),
{
    let mut out: Vec<(Option<usize>, Vec<usize>)> = Vec::new();
    let orphans: Vec<usize> = pick(prompts, replies, hints, None);
    if orphans.len() > 0 {
        out.push((None, orphans));
    }
    let ghost first: Seq<(Option<usize>, Seq<usize>)> = view_groups(out@);
    let ghost all: Seq<(Option<usize>, Seq<usize>)> = Seq::new(
        prompts@.len(),
        |p: int| (Some(prompts@[p]), replies_of(prompts@, replies@, hints@, Some(p))),
    );
    assert(first =~= (if orphans@.len() > 0 {
        seq![(None, orphans@)]
    } else {
        Seq::empty()
    }));
    assert(first + all.take(0) =~= first);
    let mut i: usize = 0;
    while i < prompts.len()
        invariant
            i <= prompts@.len(),
            all == Seq::new(
                prompts@.len(),
                |p: int| (Some(prompts@[p]), replies_of(prompts@, replies@, hints@, Some(p))),
            ),
            view_groups(out@) == first + all.take(i as int),
        decreases prompts@.len() - i,
    {
        let mine: Vec<usize> = pick(prompts, replies, hints, Some(i));
        let ghost group: (Option<usize>, Seq<usize>) = (Some(prompts@[i as int]), mine@);
        let ghost before: Seq<(Option<usize>, Vec<usize>)> = out@;
        out.push((Some(prompts[i]), mine));
        i += 1;
        assert(view_groups(out@) =~= view_groups(before).push(group));
        assert(first + all.take(i as int) =~= (first + all.take(i - 1)).push(group));
    }
    assert(all.take(i as int) =~= all);
    out
}

pub fn group_replies_under_prompts(prompts: &Vec<usize>, replies: &Vec<usize>) -> (r: Vec<
    (Option<usize>, Vec<usize>),
>)
    ensures
        view_groups(r@) == groups(prompts@, replies@, Seq::empty()),
{
    let none: Vec<Option<usize>> = Vec::new();
    assert(none@ =~= Seq::<Option<usize>>::empty());
    group_replies_under_prompts_with_hints(prompts, replies, &none)
}

proof fn nearest_is_a_prompt(prompts: Seq<usize>, reply: usize, n: int)
    requires
        0 <= n <= prompts.len(),
    ensures
        nearest(prompts, reply, n) matches Some(k) ==> 0 <= k < n && prompts[k] <= reply
            && forall|j: int| k < j < n ==> prompts[j] > reply,
        nearest(prompts, reply, n) is None ==> forall|j: int| 0 <= j < n ==> prompts[j] > reply,
    decreases n,
{
    if n > 0 && prompts[n - 1] > reply {
        nearest_is_a_prompt(prompts, reply, n - 1);
    }
}

proof fn place_is_of(prompts: Seq<usize>, p: usize, i: int)
    requires
        0 <= i,
    ensures
        place_from(prompts, p, i) matches Some(k) ==> i <= k < prompts.len() && prompts[k] == p,
    decreases prompts.len() - i,
{
    if i < prompts.len() {
        place_is_of(prompts, p, i + 1);
    }
}

/// No reply is lost: it stands in the group of its parent, or before all prompts where it has
/// none. A parent is the prompt that the reply names, or the nearest one before it.
pub proof fn every_reply_has_its_group(
    prompts: Seq<usize>,
    replies: Seq<usize>,
    hints: Seq<Option<usize>>,
    k: int,
)
    requires
        0 <= k < replies.len(),
    ensures
        ({
            let place: Option<int> = parent(prompts, replies[k], hint_of(hints, k));
            let mine: Seq<usize> = replies_of(prompts, replies, hints, place);
            let all: Seq<(Option<usize>, Seq<usize>)> = groups(prompts, replies, hints);
            &&& mine.contains(replies[k])
            &&& match place {
                Some(p) => 0 <= p < prompts.len() && all.contains((Some(prompts[p]), mine)) && (
                hint_of(hints, k) == Some(prompts[p]) || prompts[p] <= replies[k]),
                None => all[0] == (None::<usize>, mine) && forall|j: int|
                    0 <= j < prompts.len() ==> prompts[j] > replies[k],
            }
        }),
{
    let hint: Option<usize> = hint_of(hints, k);
    let place: Option<int> = parent(prompts, replies[k], hint);
    let meets = answers(prompts, replies, hints, place);
    counting::picked_holds(replies.len() as int, meets, k);
    let places: Seq<int> = counting::picked(replies.len() as int, meets);
    let j: int = choose|j: int| 0 <= j < places.len() && places[j] == k;
    let mine: Seq<usize> = replies_of(prompts, replies, hints, place);
    assert(mine[j] == replies[k]);
    nearest_is_a_prompt(prompts, replies[k], prompts.len() as int);
    if let Some(p) = hint {
        place_is_of(prompts, p, 0);
    }
    let all: Seq<(Option<usize>, Seq<usize>)> = groups(prompts, replies, hints);
    match place {
        Some(p) => {
            let at: int = all.len() - prompts.len() + p;
            assert(all[at] == (Some(prompts[p]), mine));
        },
        None => {},
    }
}

} // verus!
