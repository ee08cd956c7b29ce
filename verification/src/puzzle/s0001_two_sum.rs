use std::collections::HashMap;
use vstd::prelude::*;

verus! {

broadcast use vstd::std_specs::hash::group_hash_axioms;

/// Finds two distinct positions whose values add up to `target`. Returns the
/// two indices, earlier one first, or an empty vector when no such pair
/// exists.
pub fn two_sum(nums: Vec<i32>, target: i32) -> (r: Vec<i32>)
    requires
        nums@.len() <= i32::MAX,
        forall|k: int|
            0 <= k < nums@.len() ==> i32::MIN <= target - #[trigger] nums@[k] <= i32::MAX,
    ensures
        r@.len() == 2 || r@.len() == 0,
        r@.len() == 2 ==> 0 <= r@[0] < r@[1] < nums@.len() && nums@[r@[0] as int] + nums@[r@[1] as int]
            == target,
        r@.len() == 0 ==> forall|a: int, b: int|
            #![trigger nums@[a], nums@[b]]
            0 <= a < b < nums@.len() ==> nums@[a] + nums@[b] != target,
{
    let mut map: HashMap<i32, usize> = HashMap::with_capacity(nums.len());
    let mut idx: usize = 0;
    while idx < nums.len()
        invariant
            idx <= nums@.len() <= i32::MAX,
            forall|k: int|
                0 <= k < nums@.len() ==> i32::MIN <= target - #[trigger] nums@[k] <= i32::MAX,
            forall|v: i32| #[trigger]
                map@.contains_key(v) ==> 0 <= map@[v] < idx && nums@[map@[v] as int] == v,
            forall|k: int| 0 <= k < idx ==> map@.contains_key(#[trigger] nums@[k]),
            forall|a: int, b: int|
                #![trigger nums@[a], nums@[b]]
                0 <= a < b < idx ==> nums@[a] + nums@[b] != target,
        decreases nums@.len() - idx,
    {
        let numb = nums[idx];
        match map.get(&(target - numb)) {
            None => {
                map.insert(numb, idx);
            },
            Some(sub_index) => {
                let found = *sub_index;
                proof {
                    assert(nums@[found as int] + nums@[idx as int] == target);
                }
                return vec![found as i32, idx as i32];
            },
        }
        idx = idx + 1;
    }
    Vec::new()
}

} // verus!
