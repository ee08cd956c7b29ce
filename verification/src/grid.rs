use vstd::prelude::*;

verus! {

/// Whether a grid is a rectangle of the given dimensions.
pub open spec fn is_rect<T>(g: Seq<Seq<T>>, rows: int, cols: int) -> bool {
    g.len() == rows && forall|i: int| 0 <= i < rows ==> (#[trigger] g[i]).len() == cols
}

/// How many cells of one row satisfy `f`.
pub open spec fn row_count<T>(row: Seq<T>, f: spec_fn(T) -> bool) -> nat
    decreases row.len(),
{
    if row.len() == 0 {
        0
    } else {
        row_count(row.drop_last(), f) + if f(row.last()) {
            1nat
        } else {
            0nat
        }
    }
}

/// How many cells of the whole grid satisfy `f`.
pub open spec fn grid_count<T>(g: Seq<Seq<T>>, f: spec_fn(T) -> bool) -> nat
    decreases g.len(),
{
    if g.len() == 0 {
        0
    } else {
        grid_count(g.drop_last(), f) + row_count(g.last(), f)
    }
}

/// Replacing one cell moves the count by what the old and new values satisfy.
pub proof fn lemma_row_count_update<T>(row: Seq<T>, j: int, v: T, f: spec_fn(T) -> bool)
    requires
        0 <= j < row.len(),
    ensures
        row_count(row.update(j, v), f) + (if f(row[j]) {
            1nat
        } else {
            0nat
        }) == row_count(row, f) + (if f(v) {
            1nat
        } else {
            0nat
        }),
    decreases row.len(),
{
    if j == row.len() - 1 {
        assert(row.update(j, v).drop_last() =~= row.drop_last());
    } else {
        assert(row.update(j, v).drop_last() =~= row.drop_last().update(j, v));
        assert(row.update(j, v).last() == row.last());
        lemma_row_count_update(row.drop_last(), j, v, f);
    }
}

/// Replacing one row moves the grid count by the difference of the row counts.
pub proof fn lemma_grid_count_update<T>(g: Seq<Seq<T>>, i: int, row: Seq<T>, f: spec_fn(T) -> bool)
    requires
        0 <= i < g.len(),
    ensures
        grid_count(g.update(i, row), f) + row_count(g[i], f) == grid_count(g, f) + row_count(
            row,
            f,
        ),
    decreases g.len(),
{
    if i == g.len() - 1 {
        assert(g.update(i, row).drop_last() =~= g.drop_last());
    } else {
        assert(g.update(i, row).drop_last() =~= g.drop_last().update(i, row));
        assert(g.update(i, row).last() == g.last());
        lemma_grid_count_update(g.drop_last(), i, row, f);
    }
}

/// A row with a matching cell counts at least one.
pub proof fn lemma_row_count_nonzero<T>(row: Seq<T>, j: int, f: spec_fn(T) -> bool)
    requires
        0 <= j < row.len(),
        f(row[j]),
    ensures
        row_count(row, f) > 0,
    decreases row.len(),
{
    if j < row.len() - 1 {
        lemma_row_count_nonzero(row.drop_last(), j, f);
    }
}

/// A grid with a matching cell counts at least one.
pub proof fn lemma_grid_count_nonzero<T>(g: Seq<Seq<T>>, i: int, j: int, f: spec_fn(T) -> bool)
    requires
        0 <= i < g.len(),
        0 <= j < g[i].len(),
        f(g[i][j]),
    ensures
        grid_count(g, f) > 0,
    decreases g.len(),
{
    if i < g.len() - 1 {
        lemma_grid_count_nonzero(g.drop_last(), i, j, f);
    } else {
        lemma_row_count_nonzero(g.last(), j, f);
    }
}

/// A row never counts more matches than it has cells.
pub proof fn lemma_row_count_le<T>(row: Seq<T>, f: spec_fn(T) -> bool)
    ensures
        row_count(row, f) <= row.len(),
    decreases row.len(),
{
    if row.len() > 0 {
        lemma_row_count_le(row.drop_last(), f);
    }
}

/// A rectangle never counts more matches than it has cells.
pub proof fn lemma_grid_count_le<T>(g: Seq<Seq<T>>, rows: int, cols: int, f: spec_fn(T) -> bool)
    requires
        is_rect(g, rows, cols),
        0 <= cols,
    ensures
        grid_count(g, f) <= rows * cols,
    decreases g.len(),
{
    if g.len() == 0 {
        vstd::arithmetic::mul::lemma_mul_basics(cols);
    } else {
        assert(is_rect(g.drop_last(), rows - 1, cols));
        lemma_grid_count_le(g.drop_last(), rows - 1, cols, f);
        lemma_row_count_le(g.last(), f);
        vstd::arithmetic::mul::lemma_mul_is_distributive_sub_other_way(cols, rows, 1);
        vstd::arithmetic::mul::lemma_mul_basics(cols);
        assert((rows - 1) * cols == rows * cols - cols);
    }
}

/// A count of zero means no cell matches.
pub proof fn lemma_grid_count_zero<T>(g: Seq<Seq<T>>, f: spec_fn(T) -> bool)
    requires
        grid_count(g, f) == 0,
    ensures
        forall|i: int, j: int|
            #![trigger g[i][j]]
            0 <= i < g.len() && 0 <= j < g[i].len() ==> !f(g[i][j]),
{
    assert forall|i: int, j: int|
        #![trigger g[i][j]]
        0 <= i < g.len() && 0 <= j < g[i].len() implies !f(g[i][j]) by {
        if f(g[i][j]) {
            lemma_grid_count_nonzero(g, i, j, f);
        }
    }
}

/// The mathematical grid behind a vector of rows.
pub open spec fn grid_view<T>(g: Seq<Vec<T>>) -> Seq<Seq<T>> {
    g.map_values(|r: Vec<T>| r@)
}

/// Writes one cell of a grid of rows.
pub fn set_cell<T>(g: &mut Vec<Vec<T>>, i: usize, j: usize, v: T)
    requires
        i < old(g)@.len(),
        j < old(g)@[i as int]@.len(),
    ensures
        final(g)@.len() == old(g)@.len(),
        forall|k: int| 0 <= k < old(g)@.len() && k != i ==> final(g)@[k] == old(g)@[k],
        final(g)@[i as int]@ == old(g)@[i as int]@.update(j as int, v),
        grid_view(final(g)@) == grid_view(old(g)@).update(
            i as int,
            old(g)@[i as int]@.update(j as int, v),
        ),
{
    g[i][j] = v;
    proof {
        assert(grid_view(final(g)@) =~= grid_view(old(g)@).update(
            i as int,
            old(g)@[i as int]@.update(j as int, v),
        ));
    }
}

} // verus!
