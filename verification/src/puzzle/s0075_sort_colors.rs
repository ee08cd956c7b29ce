use vstd::prelude::*;

verus! {

/// Exchanges the elements at `a` and `b`.
fn swap_at(v: &mut Vec<i32>, a: usize, b: usize)
    requires
        a < old(v)@.len(),
        b < old(v)@.len(),
    ensures
        final(v)@ == old(v)@.update(a as int, old(v)@[b as int]).update(
            b as int,
            old(v)@[a as int],
        ),
{
    let x = v[a];
    let y = v[b];
    v[a] = y;
    v[b] = x;
    proof {
        assert(final(v)@ =~= old(v)@.update(a as int, old(v)@[b as int]).update(
            b as int,
            old(v)@[a as int],
        ));
    }
}

/// Exchanging two elements does not change what a sequence holds.
proof fn lemma_swap_multiset(s: Seq<i32>, a: int, b: int)
    requires
        0 <= a < s.len(),
        0 <= b < s.len(),
    ensures
        s.update(a, s[b]).update(b, s[a]).to_multiset() == s.to_multiset(),
{
    broadcast use vstd::seq_lib::to_multiset_update;
    broadcast use vstd::multiset::group_multiset_axioms;

    if a == b {
        assert(s.update(a, s[b]).update(b, s[a]) =~= s);
    } else {
        let s1 = s.update(a, s[b]);
        assert(s1[b] == s[b]);
        assert(s1.to_multiset() == s.to_multiset().insert(s[b]).remove(s[a]));
        assert(s1.update(b, s[a]).to_multiset() == s1.to_multiset().insert(s[a]).remove(s[b]));
        vstd::seq_lib::to_multiset_contains(s, s[a]);
        vstd::seq_lib::to_multiset_contains(s, s[b]);
        assert(s.contains(s[a]) && s.contains(s[b]));
        assert(s1.update(b, s[a]).to_multiset() =~= s.to_multiset());
    }
}

/// Sorts a vector of the three colors 0, 1 and 2 in place, by the Dutch
/// national flag partition: afterwards the values are in ascending order, and
/// they are the same values the vector held before.
pub fn sort_colors(nums: &mut Vec<i32>)
    requires
        forall|k: int| 0 <= k < old(nums)@.len() ==> 0 <= #[trigger] old(nums)@[k] <= 2,
    ensures
        final(nums)@.len() == old(nums)@.len(),
        final(nums)@.to_multiset() == old(nums)@.to_multiset(),
        forall|a: int, b: int|
            #![trigger final(nums)@[a], final(nums)@[b]]
            0 <= a <= b < final(nums)@.len() ==> final(nums)@[a] <= final(nums)@[b],
{
    if nums.is_empty() {
        return ;
    }
    let ghost orig = nums@;
    let len = nums.len();
    let mut lower_idx: usize = 0;
    let mut upper_idx: usize = len - 1;
    let mut i: usize = 0;
    let mut all_high = false;
    while i <= upper_idx && !all_high
        invariant
            nums@.len() == len == orig.len(),
            0 < len,
            lower_idx <= i,
            i <= upper_idx + 1,
            upper_idx < len,
            nums@.to_multiset() == orig.to_multiset(),
            forall|k: int| 0 <= k < len ==> 0 <= #[trigger] nums@[k] <= 2,
            forall|k: int| 0 <= k < lower_idx ==> #[trigger] nums@[k] == 0,
            forall|k: int| lower_idx <= k < i ==> #[trigger] nums@[k] == 1,
            forall|k: int| upper_idx < k < len ==> #[trigger] nums@[k] == 2,
            all_high ==> forall|k: int| 0 <= k < len ==> #[trigger] nums@[k] == 2,
        ensures
            nums@.len() == len,
            nums@.to_multiset() == orig.to_multiset(),
            forall|k: int| 0 <= k < len ==> 0 <= #[trigger] nums@[k] <= 2,
            forall|k: int| 0 <= k < lower_idx ==> #[trigger] nums@[k] == 0,
            forall|k: int| lower_idx <= k < i ==> #[trigger] nums@[k] == 1,
            forall|k: int| upper_idx < k < len ==> #[trigger] nums@[k] == 2,
            all_high ==> forall|k: int| 0 <= k < len ==> #[trigger] nums@[k] == 2,
            !all_high ==> i > upper_idx,
        decreases upper_idx + 1 - i + (if all_high {
            0int
        } else {
            1int
        }),
    {
        if nums[i] < 1 {
            proof {
                lemma_swap_multiset(nums@, lower_idx as int, i as int);
            }
            swap_at(nums, lower_idx, i);
            i = i + 1;
            lower_idx = lower_idx + 1;
        } else if nums[i] > 1 {
            proof {
                lemma_swap_multiset(nums@, upper_idx as int, i as int);
            }
            swap_at(nums, upper_idx, i);
            if upper_idx < 1 {
                proof {
                    assert(forall|k: int| 0 <= k < len ==> #[trigger] nums@[k] == 2);
                }
                all_high = true;
            } else {
                upper_idx = upper_idx - 1;
            }
        } else {
            i = i + 1;
        }
    }
}

} // verus!
