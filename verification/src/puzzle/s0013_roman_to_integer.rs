use vstd::prelude::*;

verus! {

pub struct Solution {}

/// Whether `c` is one of the seven Roman numeral symbols.
pub open spec fn is_roman_char(c: char) -> bool {
    c == 'I' || c == 'V' || c == 'X' || c == 'L' || c == 'C' || c == 'D' || c == 'M'
}

/// What one symbol contributes given the symbol after it: the three
/// subtractive pairs (I before V or X, X before L or C, C before D or M) count
/// negatively, everything else counts its plain value.
pub open spec fn roman_step(c: char, next: Option<char>) -> int {
    match (c, next) {
        ('I', Some('V')) => -1,
        ('I', Some('X')) => -1,
        ('X', Some('L')) => -10,
        ('X', Some('C')) => -10,
        ('C', Some('D')) => -100,
        ('C', Some('M')) => -100,
        ('I', _) => 1,
        ('V', _) => 5,
        ('X', _) => 10,
        ('L', _) => 50,
        ('C', _) => 100,
        ('D', _) => 500,
        ('M', _) => 1000,
        _ => 0,
    }
}

/// The value of a Roman numeral: each symbol's contribution, read with one
/// symbol of lookahead.
pub open spec fn roman_value(s: Seq<char>) -> int
    decreases s.len(),
{
    if s.len() == 0 {
        0
    } else {
        roman_step(
            s[0],
            if s.len() > 1 {
                Some(s[1])
            } else {
                None
            },
        ) + roman_value(s.skip(1))
    }
}

impl Solution {
    /// Converts a Roman numeral to its integer value.
    pub fn roman_to_int(s: String) -> (r: i32)
        requires
            forall|i: int| 0 <= i < s@.len() ==> is_roman_char(#[trigger] s@[i]),
            s@.len() <= 100000,
        ensures
            r as int == roman_value(s@),
    {
        let text = s.as_str();
        let len = text.unicode_len();
        let mut acc: i32 = 0;
        let mut i: usize = 0;
        proof {
            assert(s@.skip(0) =~= s@);
        }
        while i < len
            invariant
                i <= len,
                len == s@.len() <= 100000,
                forall|k: int| 0 <= k < s@.len() ==> is_roman_char(#[trigger] s@[k]),
                text@ == s@,
                acc == roman_value(s@) - roman_value(s@.skip(i as int)),
                -100 * (i as int) <= acc <= 1000 * (i as int),
            decreases len - i,
        {
            let curr = text.get_char(i);
            let next: Option<char> = if i + 1 < len {
                Some(text.get_char(i + 1))
            } else {
                None
            };
            let step: i32 = match (curr, next) {
                ('I', Some('V')) => -1,
                ('I', Some('X')) => -1,
                ('X', Some('L')) => -10,
                ('X', Some('C')) => -10,
                ('C', Some('D')) => -100,
                ('C', Some('M')) => -100,
                ('I', _) => 1,
                ('V', _) => 5,
                ('X', _) => 10,
                ('L', _) => 50,
                ('C', _) => 100,
                ('D', _) => 500,
                ('M', _) => 1000,
                _ => 0,
            };
            proof {
                assert(step == roman_step(s@[i as int], if i + 1 < len {
                    Some(s@[i as int + 1])
                } else {
                    None
                }));
                assert(s@.skip(i as int)[0] == s@[i as int]);
                assert(s@.skip(i as int).skip(1) =~= s@.skip(i as int + 1));
                assert(roman_value(s@.skip(i as int)) == step + roman_value(s@.skip(i as int + 1)));
            }
            acc = acc + step;
            i = i + 1;
        }
        proof {
            assert(s@.skip(len as int) =~= Seq::<char>::empty());
        }
        acc
    }
}

} // verus!
