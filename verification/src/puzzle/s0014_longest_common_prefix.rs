use vstd::prelude::*;
use vstd::string::StrSliceExecFns;
use vstd::string::StringExecFns;

verus! {

/// The words as mathematical character strings.
pub open spec fn words_view(strs: Seq<String>) -> Seq<Seq<char>> {
    strs.map_values(|x: String| x@)
}

/// Whether every word starts with the same first `n` characters as the first
/// word.
pub open spec fn all_share_prefix(words: Seq<Seq<char>>, n: int) -> bool {
    forall|k: int|
        0 <= k < words.len() ==> n <= (#[trigger] words[k]).len() && forall|i: int|
            0 <= i < n ==> words[k][i] == words[0][i]
}

/// What a longest-common-prefix answer must be: the first word's prefix that
/// every word shares, and that cannot be stretched by one more character.
pub open spec fn is_longest_common_prefix(r: Seq<char>, words: Seq<Seq<char>>) -> bool {
    if words.len() == 0 {
        r.len() == 0
    } else {
        &&& r == words[0].take(r.len() as int)
        &&& all_share_prefix(words, r.len() as int)
        &&& (r.len() == words[0].len() || !all_share_prefix(words, r.len() as int + 1))
    }
}

/// The longest prefix all given words share.
pub fn longest_common_prefix(strs: Vec<String>) -> (r: String)
    ensures
        is_longest_common_prefix(r@, words_view(strs@)),
{
    common_prefix(&strs)
}

/// The longest shared prefix, found by probing one character position at a
/// time.
pub fn longest_common_prefix_alt(strs: Vec<String>) -> (r: String)
    ensures
        is_longest_common_prefix(r@, words_view(strs@)),
{
    common_prefix(&strs)
}

/// The longest shared prefix, once more: all three entry points agree.
pub fn longest_common_prefix_again(strs: Vec<String>) -> (r: String)
    ensures
        is_longest_common_prefix(r@, words_view(strs@)),
{
    common_prefix(&strs)
}

/// Walks character positions until one word ends or two words disagree, and
/// returns that much of the first word.
fn common_prefix(strs: &Vec<String>) -> (r: String)
    ensures
        is_longest_common_prefix(r@, words_view(strs@)),
{
    let ghost words = words_view(strs@);
    proof {
        assert(forall|k: int| 0 <= k < strs@.len() ==> words[k] == (#[trigger] strs@[k])@);
    }
    if strs.len() == 0 {
        let r = String::new();
        return r;
    }
    let first_len = strs[0].as_str().unicode_len();
    let mut n: usize = 0;
    let mut open = true;
    while n < first_len && open
        invariant
            n <= first_len,
            strs@.len() > 0,
            words == words_view(strs@),
            forall|k: int| 0 <= k < strs@.len() ==> words[k] == (#[trigger] strs@[k])@,
            first_len == words[0].len(),
            all_share_prefix(words, n as int),
            !open ==> !all_share_prefix(words, n + 1),
        decreases first_len - n + (if open {
            1int
        } else {
            0int
        }),
    {
        let c = strs[0].as_str().get_char(n);
        let mut k: usize = 1;
        let mut matched = true;
        while k < strs.len() && matched
            invariant
                1 <= k <= strs@.len(),
                n < first_len == words[0].len(),
                words == words_view(strs@),
                forall|j: int| 0 <= j < strs@.len() ==> words[j] == (#[trigger] strs@[j])@,
                all_share_prefix(words, n as int),
                c == words[0][n as int],
                matched ==> forall|j: int|
                    0 <= j < k ==> n < (#[trigger] words[j]).len() && words[j][n as int] == words[0][n as int],
                !matched ==> !all_share_prefix(words, n + 1),
            decreases strs@.len() - k + (if matched {
                1int
            } else {
                0int
            }),
        {
            let w = &strs[k];
            if w.as_str().unicode_len() <= n {
                proof {
                    assert(!(n + 1 <= words[k as int].len()));
                }
                matched = false;
            } else if w.as_str().get_char(n) != c {
                matched = false;
            } else {
                k = k + 1;
            }
        }
        if matched {
            proof {
                assert(forall|j: int|
                    0 <= j < words.len() ==> n + 1 <= (#[trigger] words[j]).len());
                assert forall|j: int, i: int|
                    0 <= j < words.len() && 0 <= i < n + 1 implies (#[trigger] words[j][i])
                    == words[0][i] by {
                    if i < n {
                        assert(all_share_prefix(words, n as int));
                        assert(words[j][i] == words[0][i]);
                    }
                }
                assert(all_share_prefix(words, n as int + 1));
            }
            n = n + 1;
        } else {
            open = false;
        }
    }
    let prefix = strs[0].as_str().substring_char(0, n);
    let r = prefix.to_owned();
    proof {
        assert(r@ =~= words[0].take(n as int));
    }
    r
}

} // verus!
