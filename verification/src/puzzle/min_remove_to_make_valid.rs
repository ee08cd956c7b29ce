use crate::text::push_char;
use vstd::prelude::*;

verus! {

/// Scans a string left to right and returns how many ')' arrived with no '('
/// open, and how many '(' are still open at the end.
pub open spec fn paren_scan(s: Seq<char>) -> (nat, nat)
    decreases s.len(),
{
    if s.len() == 0 {
        (0nat, 0nat)
    } else {
        let (b, d) = paren_scan(s.drop_last());
        let c = s.last();
        if c == '(' {
            (b, d + 1)
        } else if c == ')' {
            if d > 0 {
                (b, (d - 1) as nat)
            } else {
                (b + 1, 0nat)
            }
        } else {
            (b, d)
        }
    }
}

/// A string whose parentheses all match.
pub open spec fn balanced(s: Seq<char>) -> bool {
    paren_scan(s) == (0nat, 0nat)
}

/// Whether `r` can be had from `s` by deleting characters, keeping the order.
pub open spec fn is_subsequence_of(r: Seq<char>, s: Seq<char>) -> bool
    decreases s.len(),
{
    if r.len() == 0 {
        true
    } else if s.len() == 0 {
        false
    } else if r.last() == s.last() {
        is_subsequence_of(r.drop_last(), s.drop_last()) || is_subsequence_of(r, s.drop_last())
    } else {
        is_subsequence_of(r, s.drop_last())
    }
}

/// How many ')' a string holds.
pub open spec fn close_count(s: Seq<char>) -> nat
    decreases s.len(),
{
    if s.len() == 0 {
        0
    } else {
        close_count(s.drop_last()) + if s.last() == ')' {
            1nat
        } else {
            0nat
        }
    }
}

/// How many characters of a string are not parentheses.
pub open spec fn other_count(s: Seq<char>) -> nat
    decreases s.len(),
{
    if s.len() == 0 {
        0
    } else {
        other_count(s.drop_last()) + if s.last() == '(' || s.last() == ')' {
            0nat
        } else {
            1nat
        }
    }
}

/// A prefix never holds more ')' than the whole string.
proof fn lemma_close_count_mono(s: Seq<char>, n: int)
    requires
        0 <= n <= s.len(),
    ensures
        close_count(s.take(n)) <= close_count(s),
    decreases s.len() - n,
{
    if n == s.len() {
        assert(s.take(n) =~= s);
    } else {
        lemma_close_count_mono(s, n + 1);
        assert(s.take(n + 1).drop_last() =~= s.take(n));
    }
}

/// A subsequence of a prefix is a subsequence of anything extending it.
proof fn lemma_subseq_grow(x: Seq<char>, y: Seq<char>, c: char)
    requires
        is_subsequence_of(x, y),
    ensures
        is_subsequence_of(x, y.push(c)),
{
    assert(y.push(c).drop_last() =~= y);
}

/// Keeping the next character extends a subsequence.
proof fn lemma_subseq_keep(x: Seq<char>, y: Seq<char>, c: char)
    requires
        is_subsequence_of(x, y),
    ensures
        is_subsequence_of(x.push(c), y.push(c)),
{
    assert(y.push(c).drop_last() =~= y);
    assert(x.push(c).drop_last() =~= x);
}

/// A subsequence of a subsequence is a subsequence.
proof fn lemma_subseq_trans(a: Seq<char>, b: Seq<char>, c: Seq<char>)
    requires
        is_subsequence_of(a, b),
        is_subsequence_of(b, c),
    ensures
        is_subsequence_of(a, c),
    decreases c.len(),
{
    if a.len() == 0 {
    } else if b.len() == 0 {
    } else if c.len() == 0 {
    } else {
        if b.last() == c.last() && is_subsequence_of(b.drop_last(), c.drop_last()) && !(
        is_subsequence_of(b, c.drop_last())) {
            if a.last() == b.last() && is_subsequence_of(a.drop_last(), b.drop_last()) {
                lemma_subseq_trans(a.drop_last(), b.drop_last(), c.drop_last());
            } else {
                assert(is_subsequence_of(a, b.drop_last()));
                lemma_subseq_trans(a, b.drop_last(), c.drop_last());
                assert(c.drop_last().push(c.last()) =~= c);
                lemma_subseq_grow(a, c.drop_last(), c.last());
            }
        } else {
            assert(is_subsequence_of(b, c.drop_last()));
            lemma_subseq_trans(a, b, c.drop_last());
            assert(c.drop_last().push(c.last()) =~= c);
            lemma_subseq_grow(a, c.drop_last(), c.last());
        }
    }
}

/// Removes the fewest parentheses that make the string valid: the result is a
/// subsequence of the input whose parentheses all match, every character that
/// is not a parenthesis is kept, and exactly the unmatched parentheses are
/// gone - the result's length is the input's length less the unmatched ')'
/// and the unmatched '(' counts, the fewest removals that can make the string
/// valid. A ')' is kept only while an unmatched kept '(' stands before it,
/// and a '(' is kept only while enough ')' remain ahead to match it.
pub fn min_remove_to_make_valid(s: String) -> (r: String)
    ensures
        balanced(r@),
        is_subsequence_of(r@, s@),
        other_count(r@) == other_count(s@),
        r@.len() + paren_scan(s@).0 + paren_scan(s@).1 == s@.len(),
{
    let text = s.as_str();
    let len = text.unicode_len();
    let mut closes: usize = 0;
    let mut i: usize = 0;
    proof {
        assert(s@.take(0) =~= Seq::<char>::empty());
    }
    while i < len
        invariant
            i <= len,
            len == s@.len(),
            text@ == s@,
            closes as nat == close_count(s@.take(i as int)),
            closes <= i,
        decreases len - i,
    {
        let c = text.get_char(i);
        proof {
            assert(s@.take(i as int + 1).drop_last() =~= s@.take(i as int));
            assert(s@.take(i as int + 1).last() == s@[i as int]);
        }
        if c == ')' {
            closes = closes + 1;
        }
        i = i + 1;
    }
    proof {
        assert(s@.take(len as int) =~= s@);
    }
    let mut out = String::new();
    let mut kept_open: usize = 0;
    let mut remaining_close: usize = closes;
    let mut i: usize = 0;
    proof {
        assert(s@.take(0) =~= Seq::<char>::empty());
        assert(is_subsequence_of(out@, s@.take(0)));
    }
    while i < len
        invariant
            i <= len,
            len == s@.len(),
            text@ == s@,
            paren_scan(out@) == (0nat, kept_open as nat),
            kept_open <= remaining_close,
            remaining_close as nat == close_count(s@) - close_count(s@.take(i as int)),
            close_count(s@.take(i as int)) <= close_count(s@),
            is_subsequence_of(out@, s@.take(i as int)),
            other_count(out@) == other_count(s@.take(i as int)),
            kept_open as nat <= paren_scan(s@.take(i as int)).1,
            kept_open as nat == paren_scan(s@.take(i as int)).1 || kept_open == remaining_close,
            out@.len() + paren_scan(s@.take(i as int)).0 + paren_scan(s@.take(i as int)).1 == i
                + kept_open,
        decreases len - i,
    {
        let c = text.get_char(i);
        let ghost out0 = out@;
        proof {
            assert(s@.take(i as int + 1).drop_last() =~= s@.take(i as int));
            assert(s@.take(i as int + 1).last() == s@[i as int]);
            lemma_close_count_mono(s@, i as int + 1);
        }
        if c == '(' {
            if kept_open < remaining_close {
                push_char(&mut out, c);
                kept_open = kept_open + 1;
                proof {
                    assert(out@.drop_last() =~= out0);
                    lemma_subseq_keep(out0, s@.take(i as int), c);
                }
            } else {
                proof {
                    lemma_subseq_grow(out@, s@.take(i as int), s@[i as int]);
                }
            }
        } else if c == ')' {
            proof {
                if kept_open == 0 {
                    // a ')' is still ahead, so the kept depth cannot be
                    // trailing the remaining-close count here; the raw depth
                    // must already be zero and this ')' is unmatched
                    assert(close_count(s@.take(i as int + 1)) == close_count(s@.take(i as int))
                        + 1);
                    assert(remaining_close >= 1);
                    assert(kept_open as nat == paren_scan(s@.take(i as int)).1);
                }
            }
            remaining_close = remaining_close - 1;
            if kept_open > 0 {
                push_char(&mut out, c);
                kept_open = kept_open - 1;
                proof {
                    assert(out@.drop_last() =~= out0);
                    lemma_subseq_keep(out0, s@.take(i as int), c);
                }
            } else {
                proof {
                    lemma_subseq_grow(out@, s@.take(i as int), s@[i as int]);
                }
            }
        } else {
            push_char(&mut out, c);
            proof {
                assert(out@.drop_last() =~= out0);
                lemma_subseq_keep(out0, s@.take(i as int), c);
            }
        }
        i = i + 1;
    }
    proof {
        assert(s@.take(len as int) =~= s@);
    }
    out
}

pub struct Solution;

impl Solution {
    /// The same minimal removal, offered on the solution type.
    pub fn min_remove_to_make_valid(s: String) -> (r: String)
        ensures
            balanced(r@),
            is_subsequence_of(r@, s@),
            other_count(r@) == other_count(s@),
            r@.len() + paren_scan(s@).0 + paren_scan(s@).1 == s@.len(),
    {
        min_remove_to_make_valid(s)
    }
}

/// The same minimal removal in two passes: the first drops every ')' that has
/// no open '(' before it, the second drops the '(' left unmatched.
pub fn min_remove_to_make_valid_zero_alloc(s: String) -> (r: String)
    ensures
        balanced(r@),
        is_subsequence_of(r@, s@),
        other_count(r@) == other_count(s@),
        r@.len() + paren_scan(s@).0 + paren_scan(s@).1 == s@.len(),
{
    let text = s.as_str();
    let len = text.unicode_len();
    let mut first = String::new();
    let mut depth: usize = 0;
    let mut i: usize = 0;
    proof {
        assert(s@.take(0) =~= Seq::<char>::empty());
        assert(is_subsequence_of(first@, s@.take(0)));
    }
    while i < len
        invariant
            i <= len,
            len == s@.len(),
            text@ == s@,
            depth <= i,
            paren_scan(first@) == (0nat, depth as nat),
            is_subsequence_of(first@, s@.take(i as int)),
            other_count(first@) == other_count(s@.take(i as int)),
            depth as nat == paren_scan(s@.take(i as int)).1,
            first@.len() + paren_scan(s@.take(i as int)).0 == i,
        decreases len - i,
    {
        let c = text.get_char(i);
        let ghost first0 = first@;
        proof {
            assert(s@.take(i as int + 1).drop_last() =~= s@.take(i as int));
            assert(s@.take(i as int + 1).last() == s@[i as int]);
        }
        if c == '(' {
            push_char(&mut first, c);
            depth = depth + 1;
            proof {
                assert(first@.drop_last() =~= first0);
                lemma_subseq_keep(first0, s@.take(i as int), c);
            }
        } else if c == ')' {
            if depth > 0 {
                push_char(&mut first, c);
                depth = depth - 1;
                proof {
                    assert(first@.drop_last() =~= first0);
                    lemma_subseq_keep(first0, s@.take(i as int), c);
                }
            } else {
                proof {
                    lemma_subseq_grow(first@, s@.take(i as int), s@[i as int]);
                }
            }
        } else {
            push_char(&mut first, c);
            proof {
                assert(first@.drop_last() =~= first0);
                lemma_subseq_keep(first0, s@.take(i as int), c);
            }
        }
        i = i + 1;
    }
    proof {
        assert(s@.take(len as int) =~= s@);
    }
    let ghost first_view = first@;
    let out = min_remove_to_make_valid(first);
    proof {
        lemma_subseq_trans(out@, first_view, s@);
    }
    out
}

/// How many matched parenthesis pairs a left-to-right scan closes.
pub open spec fn matched_count(s: Seq<char>) -> nat
    decreases s.len(),
{
    if s.len() == 0 {
        0
    } else {
        matched_count(s.drop_last()) + if s.last() == ')' && paren_scan(s.drop_last()).1 > 0 {
            1nat
        } else {
            0nat
        }
    }
}

/// Every character is a matched-pair half, an unmatched parenthesis, or not a
/// parenthesis at all.
pub proof fn lemma_len_decomposition(s: Seq<char>)
    ensures
        s.len() == 2 * matched_count(s) + paren_scan(s).0 + paren_scan(s).1 + other_count(s),
    decreases s.len(),
{
    if s.len() > 0 {
        lemma_len_decomposition(s.drop_last());
    }
}

/// Dropping the last character loses at most the pair it may close, and never
/// grows the matched count nor the matched-plus-open measure.
proof fn lemma_matched_drop_last(s: Seq<char>)
    requires
        s.len() > 0,
    ensures
        matched_count(s.drop_last()) <= matched_count(s),
        matched_count(s.drop_last()) + paren_scan(s.drop_last()).1 <= matched_count(s)
            + paren_scan(s).1,
        other_count(s.drop_last()) <= other_count(s),
{
}

/// A subsequence closes no more pairs than the string it came from, and no
/// more pairs-plus-open-depth either.
proof fn lemma_matched_subseq(t: Seq<char>, s: Seq<char>)
    requires
        is_subsequence_of(t, s),
    ensures
        matched_count(t) <= matched_count(s),
        matched_count(t) + paren_scan(t).1 <= matched_count(s) + paren_scan(s).1,
        other_count(t) <= other_count(s),
    decreases s.len(),
{
    if t.len() == 0 {
    } else if s.len() == 0 {
    } else if t.last() == s.last() && is_subsequence_of(t.drop_last(), s.drop_last()) && !(
    is_subsequence_of(t, s.drop_last())) {
        lemma_matched_subseq(t.drop_last(), s.drop_last());
        let c = s.last();
        if c == ')' {
            if paren_scan(t.drop_last()).1 > 0 && paren_scan(s.drop_last()).1 == 0 {
                assert(matched_count(t) <= matched_count(s));
            }
        }
    } else {
        assert(is_subsequence_of(t, s.drop_last()));
        lemma_matched_subseq(t, s.drop_last());
        lemma_matched_drop_last(s);
    }
}

/// No balanced subsequence can keep more characters than these functions do:
/// any valid subsequence of `s` is at most `s` shorn of its unmatched
/// parentheses, so removing them is the minimum removal.
pub proof fn lemma_removal_is_minimal(t: Seq<char>, s: Seq<char>)
    requires
        balanced(t),
        is_subsequence_of(t, s),
    ensures
        t.len() + paren_scan(s).0 + paren_scan(s).1 <= s.len(),
{
    lemma_len_decomposition(t);
    lemma_len_decomposition(s);
    lemma_matched_subseq(t, s);
}

} // verus!
