//! Blocks of rows under each other.

use vstd::prelude::*;

verus! {

/// The rows of the first `n` blocks of the given heights: each with its block and its place in it.
pub open spec fn rows_upto(heights: Seq<nat>, n: int) -> Seq<(int, int)>
    decreases n,
{
    if n <= 0 {
        Seq::empty()
    } else {
        rows_upto(heights, n - 1) + Seq::new(heights[n - 1], |r: int| (n - 1, r))
    }
}

/// The rows of all blocks.
pub open spec fn rows(heights: Seq<nat>) -> Seq<(int, int)> {
    rows_upto(heights, heights.len() as int)
}

/// The rows of the first blocks are the first rows of all.
pub proof fn rows_extend(heights: Seq<nat>, n: int, m: int)
    requires
        0 <= n <= m,
    ensures
        rows_upto(heights, n).len() <= rows_upto(heights, m).len(),
        forall|k: int|
            0 <= k < rows_upto(heights, n).len() ==> rows_upto(heights, n)[k] == rows_upto(
                heights,
                m,
            )[k],
    decreases m,
{
    if n < m {
        rows_extend(heights, n, m - 1);
        assert forall|k: int| 0 <= k < rows_upto(heights, n).len() implies rows_upto(heights, n)[k]
            == rows_upto(heights, m)[k] by {
            assert(rows_upto(heights, m)[k] == rows_upto(heights, m - 1)[k]);
        }
    }
}

/// Row `row` of block `n` stands behind the rows of the blocks before it.
pub proof fn row_in_block(heights: Seq<nat>, n: int, row: int)
    requires
        0 <= n < heights.len(),
        0 <= row < heights[n],
    ensures
        rows_upto(heights, n).len() + row < rows(heights).len(),
        rows(heights)[rows_upto(heights, n).len() + row] == (n, row),
{
    rows_extend(heights, n + 1, heights.len() as int);
    let at: int = rows_upto(heights, n).len() + row;
    assert(rows_upto(heights, n + 1)[at] == (n, row));
}

/// Every row lies in a block that exists and within its height.
pub proof fn rows_are_in_blocks(heights: Seq<nat>, n: int, k: int)
    requires
        0 <= n <= heights.len(),
        0 <= k < rows_upto(heights, n).len(),
    ensures
        ({
            let at: (int, int) = rows_upto(heights, n)[k];
            0 <= at.0 < n && 0 <= at.1 < heights[at.0]
        }),
    decreases n,
{
    if n > 0 {
        let before: Seq<(int, int)> = rows_upto(heights, n - 1);
        if k < before.len() {
            rows_are_in_blocks(heights, n - 1, k);
            assert(rows_upto(heights, n)[k] == before[k]);
        }
    }
}

/// What the rows show, row by row.
pub open spec fn drawn(
    rows: Seq<(int, int)>,
    show: spec_fn(int, int) -> Seq<char>,
) -> Seq<Seq<char>> {
    Seq::new(rows.len(), |k: int| show(rows[k].0, rows[k].1))
}

/// What the first `n` rows of block `m` show.
pub open spec fn block(show: spec_fn(int, int) -> Seq<char>, m: int, n: nat) -> Seq<Seq<char>> {
    Seq::new(n, |r: int| show(m, r))
}

/// What was drawn before a block, with one row more of the block behind it.
pub proof fn one_row_more(
    before: Seq<Seq<char>>,
    show: spec_fn(int, int) -> Seq<char>,
    m: int,
    n: nat,
)
    ensures
        (before + block(show, m, n)).push(show(m, n as int)) == before + block(show, m, n + 1),
        before + block(show, m, 0) == before,
{
    assert((before + block(show, m, n)).push(show(m, n as int)) =~= before + block(
        show,
        m,
        n + 1,
    ));
    assert(before + block(show, m, 0) =~= before);
}

/// Drawing one block more adds its rows.
pub proof fn drawn_next(
    heights: Seq<nat>,
    n: int,
    show: spec_fn(int, int) -> Seq<char>,
)
    requires
        0 <= n < heights.len(),
    ensures
        drawn(rows_upto(heights, n + 1), show) == drawn(rows_upto(heights, n), show) + block(
            show,
            n,
            heights[n],
        ),
        forall|head: Seq<Seq<char>>|
            head + drawn(rows_upto(heights, n), show) + block(show, n, heights[n]) == #[trigger] (
            head + drawn(rows_upto(heights, n + 1), show)),
{
    let first: Seq<Seq<char>> = drawn(rows_upto(heights, n), show);
    let next: Seq<Seq<char>> = block(show, n, heights[n]);
    assert(drawn(rows_upto(heights, n + 1), show) =~= first + next);
    assert forall|head: Seq<Seq<char>>| head + first + next == #[trigger] (head + drawn(
        rows_upto(heights, n + 1),
        show,
    )) by {
        assert(head + first + next =~= head + (first + next));
    }
}

} // verus!
