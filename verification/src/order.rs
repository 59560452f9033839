//! Putting places into the order of their ranks or of their names.

use vstd::prelude::*;

use crate::text;

verus! {

/// The rank of a key: one that is missing ranks below all others.
pub open spec fn rank(key: Option<u128>) -> int {
    match key {
        Some(k) => k as int,
        None => -1,
    }
}

/// The first of the places `order`, from `i` on, that ranks below `r`.
pub open spec fn first_below(keys: Seq<Option<u128>>, order: Seq<usize>, r: int, i: int) -> int
    decreases order.len() - i,
{
    if i < 0 || i >= order.len() {
        order.len() as int
    } else if rank(keys[order[i] as int]) < r {
        i
    } else {
        first_below(keys, order, r, i + 1)
    }
}

/// The first `n` places, the highest rank first; places of the same rank keep their order.
pub open spec fn ranked_upto(keys: Seq<Option<u128>>, n: int) -> Seq<usize>
    decreases n,
{
    if n <= 0 {
        Seq::empty()
    } else {
        let before: Seq<usize> = ranked_upto(keys, n - 1);
        before.insert(first_below(keys, before, rank(keys[n - 1]), 0), (n - 1) as usize)
    }
}

/// All places, the highest rank first.
pub open spec fn ranked(keys: Seq<Option<u128>>) -> Seq<usize> {
    ranked_upto(keys, keys.len() as int)
}

/// Whether place `a` comes before place `b`.
pub open spec fn precedes(keys: Seq<Option<u128>>, a: usize, b: usize) -> bool {
    rank(keys[a as int]) > rank(keys[b as int]) || (rank(keys[a as int]) == rank(keys[b as int])
        && a < b)
}

proof fn first_below_bounds(keys: Seq<Option<u128>>, order: Seq<usize>, r: int, i: int)
    requires
        0 <= i <= order.len(),
    ensures
        i <= first_below(keys, order, r, i) <= order.len(),
        forall|k: int|
            i <= k < first_below(keys, order, r, i) ==> rank(keys[#[trigger] order[k] as int]) >= r,
        first_below(keys, order, r, i) < order.len() ==> rank(
            keys[order[first_below(keys, order, r, i)] as int],
        ) < r,
    decreases order.len() - i,
{
    if i < order.len() && rank(keys[order[i] as int]) >= r {
        first_below_bounds(keys, order, r, i + 1);
    }
}

/// Ranking gives every place once: the higher rank first, and of two places of the same rank the
/// earlier one.
pub proof fn ranking_is_sorted(keys: Seq<Option<u128>>, n: int)
    requires
        0 <= n <= keys.len() <= usize::MAX,
    ensures
        ranked_upto(keys, n).len() == n,
        forall|i: int| 0 <= i < n ==> (#[trigger] ranked_upto(keys, n)[i]) < n,
        forall|i: int, j: int|
            0 <= i < j < n ==> precedes(
                keys,
                #[trigger] ranked_upto(keys, n)[i],
                #[trigger] ranked_upto(keys, n)[j],
            ),
    decreases n,
{
    if n > 0 {
        ranking_is_sorted(keys, n - 1);
        let before: Seq<usize> = ranked_upto(keys, n - 1);
        let r: int = rank(keys[n - 1]);
        let p: int = first_below(keys, before, r, 0);
        first_below_bounds(keys, before, r, 0);
        let now: Seq<usize> = ranked_upto(keys, n);
        assert(now == before.insert(p, (n - 1) as usize));
        assert forall|i: int, j: int| 0 <= i < j < n implies precedes(
            keys,
            #[trigger] now[i],
            #[trigger] now[j],
        ) by {
            if j < p {
                assert(precedes(keys, before[i], before[j]));
            } else if j == p {
                assert(rank(keys[before[i] as int]) >= r);
                assert(before[i] < n - 1);
            } else if i < p {
                assert(precedes(keys, before[i], before[j - 1]));
            } else if i == p {
                if p < j - 1 {
                    assert(precedes(keys, before[p], before[j - 1]));
                }
            } else {
                assert(precedes(keys, before[i - 1], before[j - 1]));
            }
        }
        assert forall|i: int| 0 <= i < n implies (#[trigger] now[i]) < n by {
            if i < p {
                assert(before[i] < n - 1);
            } else if i > p {
                assert(before[i - 1] < n - 1);
            }
        }
    }
}

/// No place is lost.
pub proof fn ranking_holds_all(keys: Seq<Option<u128>>, n: int, i: int)
    requires
        0 <= i < n <= keys.len() <= usize::MAX,
    ensures
        ranked_upto(keys, n).contains(i as usize),
    decreases n,
{
    let before: Seq<usize> = ranked_upto(keys, n - 1);
    let p: int = first_below(keys, before, rank(keys[n - 1]), 0);
    first_below_bounds(keys, before, rank(keys[n - 1]), 0);
    let now: Seq<usize> = ranked_upto(keys, n);
    if i == n - 1 {
        assert(now[p] == i);
    } else {
        ranking_holds_all(keys, n - 1, i);
        let k: int = choose|k: int| 0 <= k < before.len() && before[k] == i as usize;
        if k < p {
            assert(now[k] == i as usize);
        } else {
            assert(now[k + 1] == i as usize);
        }
    }
}

fn ranks_below(a: Option<u128>, b: Option<u128>) -> (r: bool)
    ensures
        r == (rank(a) < rank(b)),
{
    match (a, b) {
        (Some(x), Some(y)) => x < y,
        (None, Some(_)) => true,
        (_, None) => false,
    }
}

pub fn rank_places(keys: &Vec<Option<u128>>) -> (r: Vec<usize>)
    ensures
        r@ == ranked(keys@),
        r@.len() == keys@.len(),
        forall|i: int| 0 <= i < r@.len() ==> (#[trigger] r@[i]) < keys@.len(),
{
    let mut out: Vec<usize> = Vec::new();
    let count: usize = keys.len();
    let mut n: usize = 0;
    while n < count
        invariant
            n <= keys@.len(),
            count == keys@.len(),
            out@ == ranked_upto(keys@, n as int),
        decreases keys@.len() - n,
    {
        proof {
            ranking_is_sorted(keys@, n as int);
            first_below_bounds(keys@, out@, rank(keys@[n as int]), 0);
        }
        let mut p: usize = 0;
        while p < out.len() && !ranks_below(keys[out[p]], keys[n])
            invariant
                p <= out@.len(),
                n < keys@.len(),
                forall|i: int| 0 <= i < out@.len() ==> (#[trigger] out@[i]) < n,
                first_below(keys@, out@, rank(keys@[n as int]), 0) == first_below(
                    keys@,
                    out@,
                    rank(keys@[n as int]),
                    p as int,
                ),
            decreases out@.len() - p,
        {
            p += 1;
        }
        assert(p == first_below(keys@, out@, rank(keys@[n as int]), 0));
        out.insert(p, n);
        n += 1;
    }
    proof {
        ranking_is_sorted(keys@, keys@.len() as int);
    }
    out
}

/// Whether a name stands before another one, character by character.
pub open spec fn less(a: Seq<char>, b: Seq<char>) -> bool
    decreases a.len(),
{
    if b.len() == 0 {
        false
    } else if a.len() == 0 {
        true
    } else if a[0] != b[0] {
        a[0] < b[0]
    } else {
        less(a.subrange(1, a.len() as int), b.subrange(1, b.len() as int))
    }
}

/// A name that stands before one that does not stand behind a third one stands before the third.
proof fn less_goes_on(a: Seq<char>, b: Seq<char>, c: Seq<char>)
    requires
        less(a, b),
        !less(c, b),
    ensures
        less(a, c),
    decreases a.len(),
{
    if a.len() > 0 && b.len() > 0 && c.len() > 0 && a[0] == b[0] && b[0] == c[0] {
        less_goes_on(
            a.subrange(1, a.len() as int),
            b.subrange(1, b.len() as int),
            c.subrange(1, c.len() as int),
        );
    }
}

/// No name stands before and behind another one.
proof fn less_one_way(a: Seq<char>, b: Seq<char>)
    requires
        less(a, b),
    ensures
        !less(b, a),
    decreases a.len(),
{
    if a.len() > 0 && a[0] == b[0] {
        less_one_way(a.subrange(1, a.len() as int), b.subrange(1, b.len() as int));
    }
}

fn is_less(a: &str, b: &str) -> (r: bool)
    ensures
        r == less(a@, b@),
{
    let x: Vec<char> = text::chars_of(a);
    let y: Vec<char> = text::chars_of(b);
    let m: usize = x.len();
    let n: usize = y.len();
    let mut i: usize = 0;
    assert(x@.subrange(0, m as int) =~= x@);
    assert(y@.subrange(0, n as int) =~= y@);
    while i < m && i < n && x[i] == y[i]
        invariant
            i <= m == x@.len(),
            i <= n == y@.len(),
            less(x@, y@) == less(x@.subrange(i as int, m as int), y@.subrange(i as int, n as int)),
        decreases m - i,
    {
        assert(x@.subrange(i as int, m as int).subrange(1, m - i) =~= x@.subrange(i + 1, m as int));
        assert(y@.subrange(i as int, n as int).subrange(1, n - i) =~= y@.subrange(i + 1, n as int));
        i += 1;
    }
    if i >= n {
        false
    } else if i >= m {
        true
    } else {
        x[i] < y[i]
    }
}

/// The first of the places `order`, from `i` on, whose name stands before `name`.
pub open spec fn first_less(names: Seq<Seq<char>>, order: Seq<usize>, name: Seq<char>, i: int) -> int
    decreases order.len() - i,
{
    if i < 0 || i >= order.len() {
        order.len() as int
    } else if less(names[order[i] as int], name) {
        i
    } else {
        first_less(names, order, name, i + 1)
    }
}

/// The first `n` places, the last name first; places of the same name keep their order.
pub open spec fn last_name_first_upto(names: Seq<Seq<char>>, n: int) -> Seq<usize>
    decreases n,
{
    if n <= 0 {
        Seq::empty()
    } else {
        let before: Seq<usize> = last_name_first_upto(names, n - 1);
        before.insert(first_less(names, before, names[n - 1], 0), (n - 1) as usize)
    }
}

/// All places, the last name first.
pub open spec fn last_name_first(names: Seq<Seq<char>>) -> Seq<usize> {
    last_name_first_upto(names, names.len() as int)
}

proof fn first_less_bounds(names: Seq<Seq<char>>, order: Seq<usize>, name: Seq<char>, i: int)
    requires
        0 <= i <= order.len(),
    ensures
        i <= first_less(names, order, name, i) <= order.len(),
        forall|k: int|
            i <= k < first_less(names, order, name, i) ==> !less(
                names[#[trigger] order[k] as int],
                name,
            ),
        first_less(names, order, name, i) < order.len() ==> less(
            names[order[first_less(names, order, name, i)] as int],
            name,
        ),
    decreases order.len() - i,
{
    if i < order.len() && !less(names[order[i] as int], name) {
        first_less_bounds(names, order, name, i + 1);
    }
}

/// A name is put somewhere among the places, at the end at most.
pub proof fn first_less_in_range(names: Seq<Seq<char>>, order: Seq<usize>, name: Seq<char>)
    ensures
        0 <= first_less(names, order, name, 0) <= order.len(),
{
    first_less_bounds(names, order, name, 0);
}

/// Every place comes once, and no name stands before one that comes later in the alphabet.
pub proof fn names_are_sorted(names: Seq<Seq<char>>, n: int)
    requires
        0 <= n <= names.len() <= usize::MAX,
    ensures
        last_name_first_upto(names, n).len() == n,
        forall|i: int| 0 <= i < n ==> (#[trigger] last_name_first_upto(names, n)[i]) < n,
        forall|i: int, j: int|
            0 <= i < j < n ==> #[trigger] last_name_first_upto(names, n)[i]
                != #[trigger] last_name_first_upto(names, n)[j] && !less(
                names[last_name_first_upto(names, n)[i] as int],
                names[last_name_first_upto(names, n)[j] as int],
            ),
    decreases n,
{
    if n > 0 {
        names_are_sorted(names, n - 1);
        let before: Seq<usize> = last_name_first_upto(names, n - 1);
        let name: Seq<char> = names[n - 1];
        let p: int = first_less(names, before, name, 0);
        first_less_bounds(names, before, name, 0);
        let now: Seq<usize> = last_name_first_upto(names, n);
        assert(now == before.insert(p, (n - 1) as usize));
        assert forall|i: int| 0 <= i < n implies (#[trigger] now[i]) < n by {
            if i < p {
                assert(before[i] < n - 1);
            } else if i > p {
                assert(before[i - 1] < n - 1);
            }
        }
        assert forall|i: int, j: int| 0 <= i < j < n implies #[trigger] now[i]
            != #[trigger] now[j] && !less(names[now[i] as int], names[now[j] as int]) by {
            if j < p {
                assert(now[i] == before[i] && now[j] == before[j]);
            } else if j == p {
                assert(now[i] == before[i] && before[i] < n - 1);
            } else if i < p {
                assert(now[i] == before[i] && now[j] == before[j - 1]);
            } else if i == p {
                assert(now[j] == before[j - 1] && before[j - 1] < n - 1);
                let first: Seq<char> = names[before[p] as int];
                let other: Seq<char> = names[before[j - 1] as int];
                if less(name, other) {
                    less_one_way(first, name);
                    less_goes_on(name, other, first);
                }
            } else {
                assert(now[i] == before[i - 1] && now[j] == before[j - 1]);
            }
        }
    }
}

pub fn name_places(names: &Vec<String>) -> (r: Vec<usize>)
    ensures
        r@ == last_name_first(text::texts(names@)),
        r@.len() == names@.len(),
        forall|i: int| 0 <= i < r@.len() ==> (#[trigger] r@[i]) < names@.len(),
{
    let ghost all: Seq<Seq<char>> = text::texts(names@);
    let mut out: Vec<usize> = Vec::new();
    let count: usize = names.len();
    let mut n: usize = 0;
    while n < count
        invariant
            n <= count == names@.len(),
            all == text::texts(names@),
            out@ == last_name_first_upto(all, n as int),
        decreases count - n,
    {
        proof {
            names_are_sorted(all, n as int);
            first_less_bounds(all, out@, all[n as int], 0);
        }
        let mut p: usize = 0;
        while p < out.len() && !is_less(names[out[p]].as_str(), names[n].as_str())
            invariant
                p <= out@.len(),
                n < names@.len(),
                all == text::texts(names@),
                forall|i: int| 0 <= i < out@.len() ==> (#[trigger] out@[i]) < n,
                first_less(all, out@, all[n as int], 0) == first_less(
                    all,
                    out@,
                    all[n as int],
                    p as int,
                ),
            decreases out@.len() - p,
        {
            p += 1;
        }
        assert(p == first_less(all, out@, all[n as int], 0));
        out.insert(p, n);
        n += 1;
    }
    proof {
        names_are_sorted(all, all.len() as int);
    }
    out
}

} // verus!
