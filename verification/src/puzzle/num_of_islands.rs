use crate::grid::{
    grid_count, grid_view, is_rect, lemma_grid_count_le, lemma_grid_count_nonzero,
    lemma_grid_count_update, lemma_grid_count_zero, lemma_row_count_update, set_cell,
};
use vstd::prelude::*;

verus! {

/// A land cell of the chart.
pub open spec fn is_land() -> spec_fn(char) -> bool {
    |c: char| c == '1'
}

/// What the island search leaves behind: the same rectangle, with some land
/// cells sunk to water and nothing else touched.
pub open spec fn only_sunk(pre: Seq<Seq<char>>, post: Seq<Seq<char>>) -> bool {
    &&& post.len() == pre.len()
    &&& forall|i: int| 0 <= i < pre.len() ==> (#[trigger] post[i]).len() == pre[i].len()
    &&& forall|i: int, j: int|
        #![trigger post[i][j]]
        0 <= i < pre.len() && 0 <= j < pre[i].len() && post[i][j] != pre[i][j] ==> pre[i][j] == '1'
            && post[i][j] == '0'
}

/// Counts the islands of a rectangular chart of '1' (land) and '0' (water)
/// cells: the number of connected groups of land found by a scan that sinks
/// each island as it is discovered. The count is zero exactly when the chart
/// has no land at all, and never exceeds the number of land cells.
pub fn num_islands(grid: Vec<Vec<char>>) -> (r: i32)
    requires
        grid@.len() > 0,
        forall|i: int|
            0 <= i < grid@.len() ==> (#[trigger] grid@[i])@.len() == grid@[0]@.len(),
        grid@.len() * grid@[0]@.len() <= i32::MAX,
    ensures
        0 <= r <= grid_count(grid_view(grid@), is_land()),
        r == 0 <==> grid_count(grid_view(grid@), is_land()) == 0,
{
    let ghost g0 = grid_view(grid@);
    let rows = grid.len();
    let cols = grid[0].len();
    proof {
        assert(forall|k: int| 0 <= k < rows ==> g0[k] == (#[trigger] grid@[k])@);
        assert(is_rect(g0, rows as int, cols as int));
        lemma_grid_count_le(g0, rows as int, cols as int, is_land());
    }
    let mut g = grid;
    let mut count: i32 = 0;
    let mut i: usize = 0;
    while i < rows
        invariant
            i <= rows,
            g@.len() == rows,
            forall|k: int| 0 <= k < rows ==> (#[trigger] g@[k])@.len() == cols,
            is_rect(grid_view(g@), rows as int, cols as int),
            is_rect(g0, rows as int, cols as int),
            rows as int * cols as int <= i32::MAX,
            grid_count(g0, is_land()) <= rows as int * cols as int,
            only_sunk(g0, grid_view(g@)),
            0 <= count,
            count + grid_count(grid_view(g@), is_land()) <= grid_count(g0, is_land()),
            count == 0 ==> grid_view(g@) == g0 && forall|a: int, b: int|
                #![trigger g0[a][b]]
                0 <= a < i && 0 <= b < cols ==> g0[a][b] != '1',
        decreases rows - i,
    {
        let mut j: usize = 0;
        while j < cols
            invariant
                i < rows,
                j <= cols,
                g@.len() == rows,
                forall|k: int| 0 <= k < rows ==> (#[trigger] g@[k])@.len() == cols,
                is_rect(grid_view(g@), rows as int, cols as int),
                is_rect(g0, rows as int, cols as int),
                rows as int * cols as int <= i32::MAX,
                grid_count(g0, is_land()) <= rows as int * cols as int,
                only_sunk(g0, grid_view(g@)),
                0 <= count,
                count + grid_count(grid_view(g@), is_land()) <= grid_count(g0, is_land()),
                count == 0 ==> grid_view(g@) == g0 && forall|a: int, b: int|
                    #![trigger g0[a][b]]
                    0 <= a < rows && 0 <= b < cols && (a < i || (a == i && b < j)) ==> g0[a][b]
                        != '1',
            decreases cols - j,
        {
            if g[i][j] == '1' {
                proof {
                    assert(grid_view(g@)[i as int] == g@[i as int]@);
                    lemma_grid_count_nonzero(grid_view(g@), i as int, j as int, is_land());
                }
                count = count + 1;
                let ghost mid = grid_view(g@);
                dfs_grid(&mut g, i, j);
                proof {
                    lemma_only_sunk_trans(g0, mid, grid_view(g@));
                }
            }
            j = j + 1;
        }
        i = i + 1;
    }
    proof {
        if count == 0 {
            lemma_no_land_means_zero(g0, rows as int, cols as int);
        }
        if grid_count(g0, is_land()) == 0 {
            lemma_grid_count_zero(g0, is_land());
        }
    }
    count
}

/// Sinks the whole island containing the given land cell, one cell at a time.
fn dfs_grid(g: &mut Vec<Vec<char>>, i: usize, j: usize)
    requires
        old(g)@.len() > 0,
        forall|k: int|
            0 <= k < old(g)@.len() ==> (#[trigger] old(g)@[k])@.len() == old(g)@[0]@.len(),
        i < old(g)@.len(),
        j < old(g)@[0]@.len(),
        old(g)@[i as int]@[j as int] == '1',
    ensures
        final(g)@.len() == old(g)@.len(),
        forall|k: int|
            0 <= k < final(g)@.len() ==> (#[trigger] final(g)@[k])@.len() == old(g)@[0]@.len(),
        only_sunk(grid_view(old(g)@), grid_view(final(g)@)),
        grid_count(grid_view(final(g)@), is_land()) < grid_count(grid_view(old(g)@), is_land()),
    decreases grid_count(grid_view(old(g)@), is_land()),
{
    let rows = g.len();
    let cols = g[0].len();
    proof {
        assert(forall|k: int|
            0 <= k < old(g)@.len() ==> grid_view(old(g)@)[k] == (#[trigger] old(g)@[k])@);
        lemma_row_count_update(old(g)@[i as int]@, j as int, '0', is_land());
        lemma_grid_count_update(
            grid_view(old(g)@),
            i as int,
            old(g)@[i as int]@.update(j as int, '0'),
            is_land(),
        );
    }
    set_cell(g, i, j, '0');
    proof {
        assert(forall|k: int| 0 <= k < g@.len() ==> grid_view(g@)[k] == (#[trigger] g@[k])@);
        assert(grid_count(grid_view(g@), is_land()) + 1 == grid_count(
            grid_view(old(g)@),
            is_land(),
        ));
        assert(only_sunk(grid_view(old(g)@), grid_view(g@)));
    }
    let ghost s0 = grid_view(old(g)@);
    if i >= 1 {
        if g[i - 1][j] == '1' {
            proof {
                assert(forall|k: int|
                    0 <= k < g@.len() ==> grid_view(g@)[k] == (#[trigger] g@[k])@);
            }
            let ghost mid = grid_view(g@);
            dfs_grid(g, i - 1, j);
            proof {
                lemma_only_sunk_trans(s0, mid, grid_view(g@));
            }
        }
    }
    if j >= 1 {
        if g[i][j - 1] == '1' {
            proof {
                assert(forall|k: int|
                    0 <= k < g@.len() ==> grid_view(g@)[k] == (#[trigger] g@[k])@);
            }
            let ghost mid = grid_view(g@);
            dfs_grid(g, i, j - 1);
            proof {
                lemma_only_sunk_trans(s0, mid, grid_view(g@));
            }
        }
    }
    if i + 1 < rows {
        if g[i + 1][j] == '1' {
            proof {
                assert(forall|k: int|
                    0 <= k < g@.len() ==> grid_view(g@)[k] == (#[trigger] g@[k])@);
            }
            let ghost mid = grid_view(g@);
            dfs_grid(g, i + 1, j);
            proof {
                lemma_only_sunk_trans(s0, mid, grid_view(g@));
            }
        }
    }
    if j + 1 < cols {
        if g[i][j + 1] == '1' {
            proof {
                assert(forall|k: int|
                    0 <= k < g@.len() ==> grid_view(g@)[k] == (#[trigger] g@[k])@);
            }
            let ghost mid = grid_view(g@);
            dfs_grid(g, i, j + 1);
            proof {
                lemma_only_sunk_trans(s0, mid, grid_view(g@));
            }
        }
    }
}

/// A rectangle with no land counts zero land cells.
proof fn lemma_no_land_means_zero(g: Seq<Seq<char>>, rows: int, cols: int)
    requires
        is_rect(g, rows, cols),
        forall|a: int, b: int|
            #![trigger g[a][b]]
            0 <= a < rows && 0 <= b < cols ==> g[a][b] != '1',
    ensures
        grid_count(g, is_land()) == 0,
    decreases g.len(),
{
    if g.len() > 0 {
        lemma_no_land_means_zero(g.drop_last(), rows - 1, cols);
        lemma_row_all_water(g.last(), cols);
    }
}

/// A row with no land counts zero land cells.
proof fn lemma_row_all_water(row: Seq<char>, cols: int)
    requires
        row.len() == cols,
        forall|b: int| 0 <= b < cols ==> #[trigger] row[b] != '1',
    ensures
        crate::grid::row_count(row, is_land()) == 0,
    decreases row.len(),
{
    if row.len() > 0 {
        lemma_row_all_water(row.drop_last(), cols - 1);
    }
}

/// Sinking some cells and then sinking some more is still only sinking.
proof fn lemma_only_sunk_trans(a: Seq<Seq<char>>, b: Seq<Seq<char>>, c: Seq<Seq<char>>)
    requires
        only_sunk(a, b),
        only_sunk(b, c),
    ensures
        only_sunk(a, c),
{
    assert forall|i: int, j: int|
        #![trigger c[i][j]]
        0 <= i < a.len() && 0 <= j < a[i].len() && c[i][j] != a[i][j] implies a[i][j] == '1'
        && c[i][j] == '0' by {
        assert(b[i][j] == a[i][j] || (a[i][j] == '1' && b[i][j] == '0'));
    }
}

} // verus!
