use vstd::prelude::*;

verus! {

/// One node of a singly linked list of bytes.
#[derive(Debug)]
pub struct ListNode {
    pub value: u8,
    pub next: Option<Box<ListNode>>,
}

/// The values a list holds, front first.
pub open spec fn list_seq(l: Option<Box<ListNode>>) -> Seq<u8>
    decreases l,
{
    match l {
        None => Seq::empty(),
        Some(node) => seq![node.value] + list_seq(node.next),
    }
}

/// Reverses a linked list in place: the result holds the same values in the
/// opposite order.
pub fn reverse_list(right: Option<Box<ListNode>>) -> (r: Option<Box<ListNode>>)
    ensures
        list_seq(r) == list_seq(right).reverse(),
{
    let ghost orig = list_seq(right);
    let mut right = right;
    let mut left: Option<Box<ListNode>> = None;
    while right.is_some()
        invariant
            orig.reverse() == list_seq(right).reverse() + list_seq(left),
        decreases list_seq(right).len(),
    {
        let ghost right0 = list_seq(right);
        let ghost left0 = list_seq(left);
        let mut current = right.unwrap();
        let next_right = current.next.take();
        current.next = left;
        left = Some(current);
        right = next_right;
        proof {
            assert(right0 == seq![left.unwrap().value] + list_seq(right));
            assert(list_seq(left) =~= seq![left.unwrap().value] + left0);
            lemma_reverse_cons(left.unwrap().value, list_seq(right));
            assert(list_seq(right).reverse() + list_seq(left) =~= right0.reverse() + left0);
        }
    }
    proof {
        assert(list_seq(right).reverse() =~= Seq::<u8>::empty());
        assert(orig.reverse() =~= list_seq(left));
    }
    left
}

/// Reversing a list that starts with `v` puts `v` last.
proof fn lemma_reverse_cons(v: u8, rest: Seq<u8>)
    ensures
        (seq![v] + rest).reverse() == rest.reverse() + seq![v],
{
    assert((seq![v] + rest).reverse() =~= rest.reverse() + seq![v]);
}

} // verus!
