use crate::grid::grid_view;
use vstd::prelude::*;

verus! {

pub struct Solution {}

/// What rotating a square matrix a quarter turn clockwise means: the cell at
/// row `i`, column `j` afterwards held row `n-1-j`, column `i` before.
pub open spec fn is_rotated(pre: Seq<Seq<i32>>, post: Seq<Seq<i32>>, n: int) -> bool {
    &&& post.len() == n
    &&& forall|i: int| 0 <= i < n ==> (#[trigger] post[i]).len() == n
    &&& forall|i: int, j: int|
        #![trigger post[i][j]]
        0 <= i < n && 0 <= j < n ==> post[i][j] == pre[n - 1 - j][i]
}

impl Solution {
    /// Rotates a square matrix a quarter turn clockwise, in place.
    pub fn rotate(matrix: &mut Vec<Vec<i32>>)
        requires
            forall|i: int|
                0 <= i < old(matrix)@.len() ==> (#[trigger] old(matrix)@[i])@.len() == old(
                    matrix,
                )@.len(),
        ensures
            is_rotated(
                grid_view(old(matrix)@),
                grid_view(final(matrix)@),
                old(matrix)@.len() as int,
            ),
    {
        rotate_quarter_turn(matrix);
    }
}

/// Rotates a square matrix a quarter turn clockwise, in place.
pub fn rotate(matrix: &mut Vec<Vec<i32>>)
    requires
        forall|i: int|
            0 <= i < old(matrix)@.len() ==> (#[trigger] old(matrix)@[i])@.len() == old(
                matrix,
            )@.len(),
    ensures
        is_rotated(grid_view(old(matrix)@), grid_view(final(matrix)@), old(matrix)@.len() as int),
{
    rotate_quarter_turn(matrix);
}

/// Builds the rotated matrix row by row and writes it back over the input.
fn rotate_quarter_turn(matrix: &mut Vec<Vec<i32>>)
    requires
        forall|i: int|
            0 <= i < old(matrix)@.len() ==> (#[trigger] old(matrix)@[i])@.len() == old(
                matrix,
            )@.len(),
    ensures
        is_rotated(grid_view(old(matrix)@), grid_view(final(matrix)@), old(matrix)@.len() as int),
{
    let ghost pre = grid_view(old(matrix)@);
    let n = matrix.len();
    proof {
        assert(forall|k: int| 0 <= k < n ==> pre[k] == (#[trigger] old(matrix)@[k])@);
    }
    let mut rotated: Vec<Vec<i32>> = Vec::new();
    let mut i: usize = 0;
    while i < n
        invariant
            i <= n,
            n == pre.len(),
            matrix@.len() == n,
            matrix@ == old(matrix)@,
            forall|k: int| 0 <= k < n ==> pre[k] == (#[trigger] matrix@[k])@ && pre[k].len() == n,
            rotated@.len() == i,
            forall|k: int| 0 <= k < i ==> (#[trigger] rotated@[k])@.len() == n,
            forall|a: int, b: int|
                #![trigger rotated@[a]@[b]]
                0 <= a < i && 0 <= b < n ==> rotated@[a]@[b] == pre[n - 1 - b][a],
        decreases n - i,
    {
        let mut row: Vec<i32> = Vec::new();
        let mut j: usize = 0;
        while j < n
            invariant
                j <= n,
                i < n == pre.len(),
                matrix@.len() == n,
                matrix@ == old(matrix)@,
                forall|k: int|
                    0 <= k < n ==> pre[k] == (#[trigger] matrix@[k])@ && pre[k].len() == n,
                row@.len() == j,
                forall|b: int| 0 <= b < j ==> #[trigger] row@[b] == pre[n - 1 - b][i as int],
            decreases n - j,
        {
            row.push(matrix[n - 1 - j][i]);
            j = j + 1;
        }
        rotated.push(row);
        i = i + 1;
    }
    *matrix = rotated;
    proof {
        assert(forall|k: int| 0 <= k < n ==> grid_view(matrix@)[k] == (#[trigger] matrix@[k])@);
    }
}

} // verus!
