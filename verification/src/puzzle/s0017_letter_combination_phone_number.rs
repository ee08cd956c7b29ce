use crate::text::{pop_char, push_char};
use vstd::prelude::*;

verus! {

/// The letters on one phone key.
pub open spec fn key_letters(c: char) -> Seq<char> {
    match c {
        '2' => seq!['a', 'b', 'c'],
        '3' => seq!['d', 'e', 'f'],
        '4' => seq!['g', 'h', 'i'],
        '5' => seq!['j', 'k', 'l'],
        '6' => seq!['m', 'n', 'o'],
        '7' => seq!['p', 'q', 'r', 's'],
        '8' => seq!['t', 'u', 'v'],
        '9' => seq!['w', 'x', 'y', 'z'],
        _ => Seq::empty(),
    }
}

/// Every word the keys of `digits` can spell, one letter per key, ordered by
/// the first key's letters first.
pub open spec fn key_combinations(digits: Seq<char>) -> Seq<Seq<char>>
    decreases digits.len(),
{
    if digits.len() == 0 {
        seq![Seq::<char>::empty()]
    } else {
        prefixed_with(key_letters(digits[0]), key_combinations(digits.skip(1)))
    }
}

/// Each tail, prefixed with each of the given letters in turn.
pub open spec fn prefixed_with(letters: Seq<char>, tails: Seq<Seq<char>>) -> Seq<Seq<char>>
    decreases letters.len(),
{
    if letters.len() == 0 {
        Seq::empty()
    } else {
        tails.map_values(|t: Seq<char>| seq![letters[0]] + t) + prefixed_with(
            letters.skip(1),
            tails,
        )
    }
}

/// The words a string of phone keys can spell, one letter per key; an empty
/// input yields no words at all.
pub fn letter_combinations(digits: String) -> (r: Vec<String>)
    requires
        forall|i: int| 0 <= i < digits@.len() ==> '0' <= #[trigger] digits@[i] <= '9',
    ensures
        digits@.len() == 0 ==> r@.len() == 0,
        digits@.len() > 0 ==> r@.len() == key_combinations(digits@).len() && forall|i: int|
            0 <= i < r@.len() ==> #[trigger] r@[i]@ == key_combinations(digits@)[i],
{
    let mut ret: Vec<String> = Vec::new();
    if digits.as_str().unicode_len() == 0 {
        return ret;
    }
    let mut comb = String::new();
    dfs(digits.as_str(), 0, &mut comb, &mut ret);
    proof {
        assert(digits@.skip(0) =~= digits@);
        assert(forall|i: int|
            0 <= i < ret@.len() ==> #[trigger] ret@[i]@ == key_combinations(digits@).map_values(
                |t: Seq<char>| Seq::<char>::empty() + t,
            )[i]);
        assert(forall|t: Seq<char>| (Seq::<char>::empty() + t) =~= t);
        assert(forall|i: int|
            0 <= i < ret@.len() ==> #[trigger] ret@[i]@ == key_combinations(digits@)[i]);
    }
    ret
}

/// Extends every word that the keys from `idx` on can spell with the prefix
/// collected so far, appending the words to `ret` in key-letter order.
fn dfs(digits: &str, idx: usize, comb: &mut String, ret: &mut Vec<String>)
    requires
        idx <= digits@.len(),
        forall|i: int| 0 <= i < digits@.len() ==> '0' <= #[trigger] digits@[i] <= '9',
    ensures
        final(comb)@ == old(comb)@,
        final(ret)@.len() == old(ret)@.len() + key_combinations(digits@.skip(idx as int)).len(),
        forall|i: int|
            0 <= i < old(ret)@.len() ==> #[trigger] final(ret)@[i] == old(ret)@[i],
        forall|i: int|
            old(ret)@.len() <= i < final(ret)@.len() ==> #[trigger] final(ret)@[i]@
                == key_combinations(digits@.skip(idx as int)).map_values(
                |t: Seq<char>| old(comb)@ + t,
            )[i - old(ret)@.len()],
    decreases digits@.len() - idx,
{
    let len = digits.unicode_len();
    if idx == len {
        proof {
            assert(digits@.skip(idx as int) =~= Seq::<char>::empty());
            assert(old(comb)@ + Seq::<char>::empty() =~= old(comb)@);
        }
        let copy = comb.clone();
        ret.push(copy);
        return ;
    }
    let c = digits.get_char(idx);
    let letters: &str = match c {
        '2' => "abc",
        '3' => "def",
        '4' => "ghi",
        '5' => "jkl",
        '6' => "mno",
        '7' => "pqrs",
        '8' => "tuv",
        '9' => "wxyz",
        _ => "",
    };
    proof {
        reveal_strlit("abc");
        reveal_strlit("def");
        reveal_strlit("ghi");
        reveal_strlit("jkl");
        reveal_strlit("mno");
        reveal_strlit("pqrs");
        reveal_strlit("tuv");
        reveal_strlit("wxyz");
        reveal_strlit("");
        assert(letters@ == key_letters(digits@[idx as int]));
    }
    let ghost tails = key_combinations(digits@.skip(idx as int + 1));
    let letter_count = letters.unicode_len();
    let mut li: usize = 0;
    while li < letter_count
        invariant
            li <= letter_count,
            letter_count == letters@.len(),
            idx < len,
            len == digits@.len(),
            idx < digits@.len(),
            forall|i: int| 0 <= i < digits@.len() ==> '0' <= #[trigger] digits@[i] <= '9',
            letters@ == key_letters(digits@[idx as int]),
            tails == key_combinations(digits@.skip(idx as int + 1)),
            comb@ == old(comb)@,
            ret@.len() == old(ret)@.len() + prefixed_with(letters@.take(li as int), tails).len(),
            forall|i: int| 0 <= i < old(ret)@.len() ==> #[trigger] ret@[i] == old(ret)@[i],
            forall|i: int|
                old(ret)@.len() <= i < ret@.len() ==> #[trigger] ret@[i]@ == prefixed_with(
                    letters@.take(li as int),
                    tails,
                ).map_values(|t: Seq<char>| old(comb)@ + t)[i - old(ret)@.len()],
        decreases letter_count - li,
    {
        let cc = letters.get_char(li);
        push_char(comb, cc);
        dfs(digits, idx + 1, comb, ret);
        let _popped = pop_char(comb);
        proof {
            assert(comb@ =~= old(comb)@);
            lemma_prefixed_take_step(letters@, tails, li as int);
            assert(forall|t: Seq<char>|
                (old(comb)@ + (seq![letters@[li as int]] + t)) =~= ((old(comb)@.push(
                    letters@[li as int],
                )) + t));
        }
        li = li + 1;
    }
    proof {
        assert(letters@.take(letter_count as int) =~= letters@);
        assert(digits@.skip(idx as int)[0] == digits@[idx as int]);
        assert(digits@.skip(idx as int).skip(1) =~= digits@.skip(idx as int + 1));
        assert(key_combinations(digits@.skip(idx as int)) == prefixed_with(letters@, tails));
    }
}

/// Taking one more letter extends the prefixed words by that letter's block.
proof fn lemma_prefixed_take_step(letters: Seq<char>, tails: Seq<Seq<char>>, li: int)
    requires
        0 <= li < letters.len(),
    ensures
        prefixed_with(letters.take(li + 1), tails) == prefixed_with(letters.take(li), tails)
            + tails.map_values(|t: Seq<char>| seq![letters[li]] + t),
    decreases li,
{
    if li == 0 {
        assert(letters.take(1)[0] == letters[0]);
        assert(letters.take(1).skip(1) =~= Seq::<char>::empty());
        assert(prefixed_with(Seq::<char>::empty(), tails) == Seq::<Seq<char>>::empty());
        assert(letters.take(0) =~= Seq::<char>::empty());
        assert(prefixed_with(letters.take(1), tails) =~= prefixed_with(letters.take(0), tails)
            + tails.map_values(|t: Seq<char>| seq![letters[0]] + t));
    } else {
        lemma_prefixed_take_step(letters.skip(1), tails, li - 1);
        assert(letters.take(li + 1)[0] == letters[0]);
        assert(letters.take(li + 1).skip(1) =~= letters.skip(1).take(li));
        assert(letters.take(li)[0] == letters[0]);
        assert(letters.take(li).skip(1) =~= letters.skip(1).take(li - 1));
        assert(letters.skip(1)[li - 1] == letters[li]);
        assert(prefixed_with(letters.take(li + 1), tails) =~= prefixed_with(letters.take(li), tails)
            + tails.map_values(|t: Seq<char>| seq![letters[li]] + t));
    }
}

} // verus!
