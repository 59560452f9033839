//! Counting and picking what meets a condition.

use vstd::prelude::*;

verus! {

/// How many of the first `n` places meet a condition.
pub open spec fn counted(n: int, meets: spec_fn(int) -> bool) -> nat
    decreases n,
{
    if n <= 0 {
        0
    } else {
        counted(n - 1, meets) + (if meets(n - 1) {
            1nat
        } else {
            0nat
        })
    }
}

/// No more are counted than there are.
pub proof fn counted_at_most(n: int, meets: spec_fn(int) -> bool)
    requires
        0 <= n,
    ensures
        counted(n, meets) <= n,
    decreases n,
{
    if n > 0 {
        counted_at_most(n - 1, meets);
    }
}

/// Those of the first `n` places that meet a condition, in their order.
pub open spec fn picked(n: int, meets: spec_fn(int) -> bool) -> Seq<int>
    decreases n,
{
    if n <= 0 {
        Seq::empty()
    } else if meets(n - 1) {
        picked(n - 1, meets).push(n - 1)
    } else {
        picked(n - 1, meets)
    }
}

/// As many are picked as are counted, each of them meets the condition, and they stand in their
/// order.
pub proof fn picked_are_in_order(n: int, meets: spec_fn(int) -> bool)
    ensures
        picked(n, meets).len() == counted(n, meets),
        forall|k: int|
            0 <= k < picked(n, meets).len() ==> 0 <= #[trigger] picked(n, meets)[k] < n && meets(
                picked(n, meets)[k],
            ),
        forall|j: int, k: int|
            0 <= j < k < picked(n, meets).len() ==> #[trigger] picked(n, meets)[j]
                < #[trigger] picked(n, meets)[k],
    decreases n,
{
    if n > 0 {
        picked_are_in_order(n - 1, meets);
    }
}

/// What meets the condition is picked.
pub proof fn picked_holds(n: int, meets: spec_fn(int) -> bool, i: int)
    requires
        0 <= i < n,
        meets(i),
    ensures
        picked(n, meets).contains(i),
    decreases n,
{
    if i == n - 1 {
        assert(picked(n, meets).last() == i);
        assert(picked(n, meets)[picked(n, meets).len() - 1] == i);
    } else {
        picked_holds(n - 1, meets, i);
        let before: Seq<int> = picked(n - 1, meets);
        let k: int = choose|k: int| 0 <= k < before.len() && before[k] == i;
        assert(picked(n, meets)[k] == i);
    }
}

/// Where everything meets the condition, everything is picked.
pub proof fn picked_all(n: int, meets: spec_fn(int) -> bool)
    requires
        0 <= n,
        forall|i: int| 0 <= i < n ==> #[trigger] meets(i),
    ensures
        picked(n, meets) == Seq::new(n as nat, |i: int| i),
    decreases n,
{
    if n > 0 {
        picked_all(n - 1, meets);
        assert(meets(n - 1));
    }
    assert(picked(n, meets) =~= Seq::new(n as nat, |i: int| i));
}

/// What is picked among the first places stays picked where there are more of them.
pub proof fn picked_goes_on(n: int, m: int, meets: spec_fn(int) -> bool, k: int)
    requires
        n <= m,
        0 <= k < picked(n, meets).len(),
    ensures
        k < picked(m, meets).len(),
        picked(m, meets)[k] == picked(n, meets)[k],
    decreases m - n,
{
    if n < m {
        picked_goes_on(n, m - 1, meets, k);
    }
}

} // verus!
