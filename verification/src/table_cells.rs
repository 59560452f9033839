//! Cells side by side in the columns of a table.

use vstd::prelude::*;

use crate::fit;
use crate::text;

verus! {

/// What a sequence of string slices holds.
pub open spec fn strs(v: Seq<&str>) -> Seq<Seq<char>> {
    Seq::new(v.len(), |i: int| v[i]@)
}

/// The first `n` cells, each cut or padded to its column, one space apart.
pub open spec fn left_cells(w: Seq<usize>, cells: Seq<Seq<char>>, n: int) -> Seq<char>
    decreases n,
{
    if n <= 0 {
        Seq::empty()
    } else if n == 1 {
        fit::left(cells[0], w[0] as int)
    } else {
        left_cells(w, cells, n - 1) + " "@ + fit::left(cells[n - 1], w[n - 1] as int)
    }
}

/// A row of a table: its marker and its cells.
pub open spec fn row(marker: Seq<char>, w: Seq<usize>, cells: Seq<Seq<char>>) -> Seq<char> {
    marker + left_cells(w, cells, cells.len() as int)
}

pub fn row_of(marker: &str, w: &Vec<usize>, cells: &Vec<&str>) -> (r: String)
    requires
        w@.len() == cells@.len(),
    ensures
        r@ == row(marker@, w@, strs(cells@)),
{
    let mut out: String = String::new();
    let mut i: usize = 0;
    while i < cells.len()
        invariant
            i <= cells@.len(),
            w@.len() == cells@.len(),
            out@ == left_cells(w@, strs(cells@), i as int),
        decreases cells@.len() - i,
    {
        let cell: String = fit::fit_left(cells[i], w[i]);
        if i == 0 {
            out = cell;
        } else {
            out.push_str(" ");
            out.push_str(cell.as_str());
        }
        i += 1;
    }
    text::cat2(marker, out.as_str())
}

/// The cells take up their columns and the spaces between them, no more and no less.
pub proof fn cells_fill_their_columns(w: Seq<usize>, cells: Seq<Seq<char>>, n: int)
    requires
        1 <= n <= cells.len(),
        n <= w.len(),
    ensures
        left_cells(w, cells, n).len() == fit::column_start(w, n) - 2,
    decreases n,
{
    reveal_strlit(" ");
    fit::fitted_has_width(cells[n - 1], w[n - 1] as int, false);
    if n > 1 {
        cells_fill_their_columns(w, cells, n - 1);
    } else {
        reveal_with_fuel(fit::column_start, 2);
    }
}

proof fn starts_grow(w: Seq<usize>, i: int, n: int)
    requires
        0 <= i < n <= w.len(),
    ensures
        1 <= fit::column_start(w, i),
        fit::column_start(w, i) + w[i] + 1 <= fit::column_start(w, n),
    decreases n,
{
    if i < n - 1 {
        starts_grow(w, i, n - 1);
    } else if i > 0 {
        starts_grow(w, i - 1, i);
    }
}

/// Splitting a row at its columns gives back its marker and its cells as they were fitted.
pub proof fn columns_read_back(
    marker: char,
    w: Seq<usize>,
    cells: Seq<Seq<char>>,
    n: int,
    i: int,
)
    requires
        0 <= i < n <= cells.len(),
        n <= w.len(),
    ensures
        text::head(seq![marker] + left_cells(w, cells, n), 1) == seq![marker],
        fit::slice(
            seq![marker] + left_cells(w, cells, n),
            fit::column_start(w, i),
            w[i] as int,
        ) == fit::left(cells[i], w[i] as int),
    decreases n,
{
    let line: Seq<char> = seq![marker] + left_cells(w, cells, n);
    assert(text::head(line, 1) =~= seq![marker]);
    fit::fitted_has_width(cells[i], w[i] as int, false);
    fit::fitted_has_width(cells[n - 1], w[n - 1] as int, false);
    reveal_strlit(" ");
    starts_grow(w, i, n);
    cells_fill_their_columns(w, cells, n);
    let start: int = fit::column_start(w, i);
    let cell: Seq<char> = fit::left(cells[i], w[i] as int);
    if n > 1 && i < n - 1 {
        columns_read_back(marker, w, cells, n - 1, i);
        starts_grow(w, i, n - 1);
        cells_fill_their_columns(w, cells, n - 1);
        let shorter: Seq<char> = seq![marker] + left_cells(w, cells, n - 1);
        assert(fit::slice(shorter, start, w[i] as int) == cell);
        assert forall|k: int| 0 <= k < w[i] implies line[start + k] == cell[k] by {
            assert(shorter[start + k] == line[start + k]);
            assert(fit::slice(shorter, start, w[i] as int)[k] == shorter[start + k]);
        }
    } else if n > 1 {
        cells_fill_their_columns(w, cells, n - 1);
        assert(start == fit::column_start(w, n - 1));
        assert forall|k: int| 0 <= k < w[i] implies line[start + k] == cell[k] by {}
    } else {
        reveal_with_fuel(fit::column_start, 2);
        assert(start == 1);
    }
    assert(fit::slice(line, start, w[i] as int) =~= cell);
}

} // verus!
