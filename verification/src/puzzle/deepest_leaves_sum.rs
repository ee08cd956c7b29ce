use vstd::prelude::*;

verus! {

/// A node of a binary tree.
#[derive(Debug, PartialEq, Eq)]
pub struct TreeNode {
    pub val: i32,
    pub left: Option<Box<TreeNode>>,
    pub right: Option<Box<TreeNode>>,
}

impl TreeNode {
    pub fn new(val: i32) -> (r: TreeNode)
        ensures
            r.val == val,
            r.left is None,
            r.right is None,
    {
        TreeNode { val, left: None, right: None }
    }
}

/// How many levels a tree has; an absent tree has none.
pub open spec fn height(t: Option<Box<TreeNode>>) -> nat
    decreases t,
{
    match t {
        None => 0,
        Some(node) => 1 + if height(node.left) >= height(node.right) {
            height(node.left)
        } else {
            height(node.right)
        },
    }
}

/// The sum of the values on the deepest level.
pub open spec fn deepest_sum(t: Option<Box<TreeNode>>) -> int
    decreases t,
{
    match t {
        None => 0,
        Some(node) => {
            if node.left is None && node.right is None {
                node.val as int
            } else if height(node.left) == height(node.right) {
                deepest_sum(node.left) + deepest_sum(node.right)
            } else if height(node.left) > height(node.right) {
                deepest_sum(node.left)
            } else {
                deepest_sum(node.right)
            }
        },
    }
}

/// Whether every subtree's deepest-level sum fits a machine integer, so the
/// additions along the way cannot overflow.
pub open spec fn sums_fit(t: Option<Box<TreeNode>>) -> bool
    decreases t,
{
    match t {
        None => true,
        Some(node) => i32::MIN <= deepest_sum(t) <= i32::MAX && sums_fit(node.left) && sums_fit(
            node.right,
        ),
    }
}

pub struct Solution;

impl Solution {
    /// The sum of the values on the deepest level of the tree.
    pub fn deepest_leaves_sum(root: Option<Box<TreeNode>>) -> (r: i32)
        requires
            sums_fit(root),
            height(root) <= usize::MAX,
        ensures
            r as int == deepest_sum(root),
    {
        let (_depth, sum) = deepest(&root);
        sum
    }
}

/// Walks the tree once and reports its height and its deepest-level sum.
fn deepest(t: &Option<Box<TreeNode>>) -> (r: (usize, i32))
    requires
        sums_fit(*t),
        height(*t) <= usize::MAX,
    ensures
        r.0 as nat == height(*t),
        r.1 as int == deepest_sum(*t),
    decreases *t,
{
    match t {
        None => (0, 0),
        Some(node) => {
            let (hl, sl) = deepest(&node.left);
            let (hr, sr) = deepest(&node.right);
            if node.left.is_none() && node.right.is_none() {
                (1, node.val)
            } else if hl == hr {
                (hl + 1, sl + sr)
            } else if hl > hr {
                (hl + 1, sl)
            } else {
                (hr + 1, sr)
            }
        },
    }
}

} // verus!
