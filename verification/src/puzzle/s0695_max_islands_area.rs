use crate::grid::{
    grid_count, grid_view, is_rect, lemma_grid_count_le, lemma_grid_count_nonzero,
    lemma_grid_count_update, lemma_grid_count_zero, lemma_row_count_update, set_cell,
};
use std::collections::VecDeque;
use vstd::prelude::*;

verus! {

/// A land cell of the area chart.
pub open spec fn is_one() -> spec_fn(i32) -> bool {
    |v: i32| v == 1
}

/// What the search leaves behind: the same rectangle, with some 1 cells
/// cleared to 0 and nothing else touched.
pub open spec fn only_cleared(pre: Seq<Seq<i32>>, post: Seq<Seq<i32>>) -> bool {
    &&& post.len() == pre.len()
    &&& forall|i: int| 0 <= i < pre.len() ==> (#[trigger] post[i]).len() == pre[i].len()
    &&& forall|i: int, j: int|
        #![trigger post[i][j]]
        0 <= i < pre.len() && 0 <= j < pre[i].len() && post[i][j] != pre[i][j] ==> pre[i][j] == 1
            && post[i][j] == 0
}

/// Clearing some cells and then clearing some more is still only clearing.
proof fn lemma_only_cleared_trans(a: Seq<Seq<i32>>, b: Seq<Seq<i32>>, c: Seq<Seq<i32>>)
    requires
        only_cleared(a, b),
        only_cleared(b, c),
    ensures
        only_cleared(a, c),
{
    assert forall|i: int, j: int|
        #![trigger c[i][j]]
        0 <= i < a.len() && 0 <= j < a[i].len() && c[i][j] != a[i][j] implies a[i][j] == 1 && c[i][j]
        == 0 by {
        assert(b[i][j] == a[i][j] || (a[i][j] == 1 && b[i][j] == 0));
    }
}

/// The largest area a breadth-first island sweep reports over a rectangular
/// chart of 1 (land) and 0 (water) cells: zero exactly when there is no land,
/// and never more than the number of land cells.
pub fn max_area_of_islands(grid: Vec<Vec<i32>>) -> (r: i32)
    requires
        grid@.len() > 0,
        forall|i: int| 0 <= i < grid@.len() ==> (#[trigger] grid@[i])@.len() == grid@[0]@.len(),
        grid@.len() * grid@[0]@.len() <= i32::MAX,
    ensures
        0 <= r <= grid_count(grid_view(grid@), is_one()),
        r == 0 <==> grid_count(grid_view(grid@), is_one()) == 0,
{
    let ghost g0 = grid_view(grid@);
    let rows = grid.len();
    let cols = grid[0].len();
    proof {
        assert(forall|k: int| 0 <= k < rows ==> g0[k] == (#[trigger] grid@[k])@);
        assert(is_rect(g0, rows as int, cols as int));
        lemma_grid_count_le(g0, rows as int, cols as int, is_one());
    }
    let mut g = grid;
    let mut max_area: i32 = 0;
    let mut i: usize = 0;
    while i < rows
        invariant
            i <= rows,
            g@.len() == rows,
            forall|k: int| 0 <= k < rows ==> (#[trigger] g@[k])@.len() == cols,
            is_rect(g0, rows as int, cols as int),
            rows as int * cols as int <= i32::MAX,
            grid_count(g0, is_one()) <= rows as int * cols as int,
            only_cleared(g0, grid_view(g@)),
            0 <= max_area,
            max_area <= grid_count(g0, is_one()) - grid_count(grid_view(g@), is_one()),
            grid_count(grid_view(g@), is_one()) <= grid_count(g0, is_one()),
            max_area == 0 ==> grid_view(g@) == g0 && forall|a: int, b: int|
                #![trigger g0[a][b]]
                0 <= a < i && 0 <= b < cols ==> g0[a][b] != 1,
        decreases rows - i,
    {
        let mut j: usize = 0;
        while j < cols
            invariant
                i < rows,
                j <= cols,
                g@.len() == rows,
                forall|k: int| 0 <= k < rows ==> (#[trigger] g@[k])@.len() == cols,
                is_rect(g0, rows as int, cols as int),
                rows as int * cols as int <= i32::MAX,
                grid_count(g0, is_one()) <= rows as int * cols as int,
                only_cleared(g0, grid_view(g@)),
                0 <= max_area,
                max_area <= grid_count(g0, is_one()) - grid_count(grid_view(g@), is_one()),
                grid_count(grid_view(g@), is_one()) <= grid_count(g0, is_one()),
                max_area == 0 ==> grid_view(g@) == g0 && forall|a: int, b: int|
                    #![trigger g0[a][b]]
                    0 <= a < rows && 0 <= b < cols && (a < i || (a == i && b < j)) ==> g0[a][b]
                        != 1,
            decreases cols - j,
        {
            if g[i][j] == 1 {
                proof {
                    assert(grid_view(g@)[i as int] == g@[i as int]@);
                    lemma_grid_count_nonzero(grid_view(g@), i as int, j as int, is_one());
                }
                let ghost mid = grid_view(g@);
                let area = island_area(&mut g, i, j);
                proof {
                    lemma_only_cleared_trans(g0, mid, grid_view(g@));
                }
                if area > max_area {
                    max_area = area;
                }
            }
            j = j + 1;
        }
        i = i + 1;
    }
    proof {
        if max_area == 0 {
            lemma_no_ones_means_zero(g0, rows as int, cols as int);
        }
        if grid_count(g0, is_one()) == 0 {
            lemma_grid_count_zero(g0, is_one());
        }
    }
    max_area
}

/// Clears the whole island containing the given land cell, breadth first, and
/// returns how many cells it cleared.
fn island_area(g: &mut Vec<Vec<i32>>, si: usize, sj: usize) -> (area: i32)
    requires
        old(g)@.len() > 0,
        forall|k: int|
            0 <= k < old(g)@.len() ==> (#[trigger] old(g)@[k])@.len() == old(g)@[0]@.len(),
        si < old(g)@.len(),
        sj < old(g)@[0]@.len(),
        old(g)@[si as int]@[sj as int] == 1,
        grid_count(grid_view(old(g)@), is_one()) <= i32::MAX,
    ensures
        final(g)@.len() == old(g)@.len(),
        forall|k: int|
            0 <= k < final(g)@.len() ==> (#[trigger] final(g)@[k])@.len() == old(g)@[0]@.len(),
        only_cleared(grid_view(old(g)@), grid_view(final(g)@)),
        1 <= area,
        area as int == grid_count(grid_view(old(g)@), is_one()) - grid_count(
            grid_view(final(g)@),
            is_one(),
        ),
{
    let rows = g.len();
    let cols = g[0].len();
    let ghost s0 = grid_view(old(g)@);
    proof {
        assert(forall|k: int|
            0 <= k < old(g)@.len() ==> grid_view(old(g)@)[k] == (#[trigger] old(g)@[k])@);
        lemma_row_count_update(old(g)@[si as int]@, sj as int, 0i32, is_one());
        lemma_grid_count_update(
            s0,
            si as int,
            old(g)@[si as int]@.update(sj as int, 0i32),
            is_one(),
        );
    }
    proof {
        lemma_grid_count_nonzero(s0, si as int, sj as int, is_one());
    }
    set_cell(g, si, sj, 0);
    let mut que: VecDeque<(usize, usize)> = VecDeque::new();
    que.push_back((si, sj));
    let mut area: i32 = 0;
    while que.len() > 0
        invariant
            g@.len() == rows,
            rows == s0.len() > 0,
            forall|k: int| 0 <= k < rows ==> (#[trigger] g@[k])@.len() == cols,
            is_rect(s0, rows as int, cols as int),
            grid_count(s0, is_one()) <= i32::MAX,
            only_cleared(s0, grid_view(g@)),
            0 <= area,
            area + que@.len() == grid_count(s0, is_one()) - grid_count(grid_view(g@), is_one()),
            grid_count(grid_view(g@), is_one()) < grid_count(s0, is_one()),
            forall|k: int|
                0 <= k < que@.len() ==> (#[trigger] que@[k]).0 < rows && que@[k].1 < cols,
        decreases grid_count(grid_view(g@), is_one()), que@.len(),
    {
        let last_pos = que.pop_front().unwrap();
        area = area + 1;
        let (pi, pj) = last_pos;
        proof {
            assert(forall|k: int| 0 <= k < g@.len() ==> grid_view(g@)[k] == (#[trigger] g@[k])@);
        }
        if pi >= 1 && g[pi - 1][pj] == 1 {
            let ghost mid = grid_view(g@);
            clear_and_push(g, &mut que, pi - 1, pj);
            proof {
                lemma_only_cleared_trans(s0, mid, grid_view(g@));
                assert(forall|k: int| 0 <= k < g@.len() ==> grid_view(g@)[k] == (#[trigger] g@[k])@);
            }
        }
        if pi + 1 < rows && g[pi + 1][pj] == 1 {
            let ghost mid = grid_view(g@);
            clear_and_push(g, &mut que, pi + 1, pj);
            proof {
                lemma_only_cleared_trans(s0, mid, grid_view(g@));
                assert(forall|k: int| 0 <= k < g@.len() ==> grid_view(g@)[k] == (#[trigger] g@[k])@);
            }
        }
        if pj >= 1 && g[pi][pj - 1] == 1 {
            let ghost mid = grid_view(g@);
            clear_and_push(g, &mut que, pi, pj - 1);
            proof {
                lemma_only_cleared_trans(s0, mid, grid_view(g@));
                assert(forall|k: int| 0 <= k < g@.len() ==> grid_view(g@)[k] == (#[trigger] g@[k])@);
            }
        }
        if pj + 1 < cols && g[pi][pj + 1] == 1 {
            let ghost mid = grid_view(g@);
            clear_and_push(g, &mut que, pi, pj + 1);
            proof {
                lemma_only_cleared_trans(s0, mid, grid_view(g@));
                assert(forall|k: int| 0 <= k < g@.len() ==> grid_view(g@)[k] == (#[trigger] g@[k])@);
            }
        }
    }
    area
}

/// Clears one land cell and queues it for its own neighbour sweep.
fn clear_and_push(g: &mut Vec<Vec<i32>>, que: &mut VecDeque<(usize, usize)>, i: usize, j: usize)
    requires
        i < old(g)@.len(),
        j < old(g)@[i as int]@.len(),
        old(g)@[i as int]@[j as int] == 1,
    ensures
        final(g)@.len() == old(g)@.len(),
        forall|k: int|
            0 <= k < old(g)@.len() ==> (#[trigger] final(g)@[k])@.len() == old(g)@[k]@.len(),
        only_cleared(grid_view(old(g)@), grid_view(final(g)@)),
        grid_count(grid_view(final(g)@), is_one()) + 1 == grid_count(grid_view(old(g)@), is_one()),
        final(que)@ == old(que)@.push((i, j)),
{
    proof {
        assert(forall|k: int|
            0 <= k < old(g)@.len() ==> grid_view(old(g)@)[k] == (#[trigger] old(g)@[k])@);
        lemma_row_count_update(old(g)@[i as int]@, j as int, 0i32, is_one());
        lemma_grid_count_update(
            grid_view(old(g)@),
            i as int,
            old(g)@[i as int]@.update(j as int, 0i32),
            is_one(),
        );
    }
    set_cell(g, i, j, 0);
    que.push_back((i, j));
    proof {
        assert(forall|k: int| 0 <= k < g@.len() ==> grid_view(g@)[k] == (#[trigger] g@[k])@);
        assert(only_cleared(grid_view(old(g)@), grid_view(g@)));
    }
}

/// A rectangle with no land counts zero land cells.
proof fn lemma_no_ones_means_zero(g: Seq<Seq<i32>>, rows: int, cols: int)
    requires
        is_rect(g, rows, cols),
        forall|a: int, b: int|
            #![trigger g[a][b]]
            0 <= a < rows && 0 <= b < cols ==> g[a][b] != 1,
    ensures
        grid_count(g, is_one()) == 0,
    decreases g.len(),
{
    if g.len() > 0 {
        lemma_no_ones_means_zero(g.drop_last(), rows - 1, cols);
        lemma_row_no_ones(g.last(), cols);
    }
}

/// A row with no land counts zero land cells.
proof fn lemma_row_no_ones(row: Seq<i32>, cols: int)
    requires
        row.len() == cols,
        forall|b: int| 0 <= b < cols ==> #[trigger] row[b] != 1,
    ensures
        crate::grid::row_count(row, is_one()) == 0,
    decreases row.len(),
{
    if row.len() > 0 {
        lemma_row_no_ones(row.drop_last(), cols - 1);
    }
}

} // verus!
