use vstd::prelude::*;

verus! {

/// Relies on String::push: appends exactly the one given character.
#[verifier::external_body]
pub fn push_char(s: &mut String, c: char)
    ensures
        final(s)@ == old(s)@.push(c),
{
    s.push(c);
}

/// Relies on String::pop: removes and returns the last character, or `None`
/// on an empty string.
#[verifier::external_body]
pub fn pop_char(s: &mut String) -> (r: Option<char>)
    ensures
        old(s)@.len() == 0 ==> r is None && final(s)@ == old(s)@,
        old(s)@.len() > 0 ==> r == Some(old(s)@.last()) && final(s)@ == old(s)@.drop_last(),
{
    s.pop()
}

/// The character for one digit value below ten.
pub open spec fn digit_char(d: nat) -> char {
    if d == 0 {
        '0'
    } else if d == 1 {
        '1'
    } else if d == 2 {
        '2'
    } else if d == 3 {
        '3'
    } else if d == 4 {
        '4'
    } else if d == 5 {
        '5'
    } else if d == 6 {
        '6'
    } else if d == 7 {
        '7'
    } else if d == 8 {
        '8'
    } else {
        '9'
    }
}

/// The decimal digits of `n`, most significant first; empty for zero.
pub open spec fn dec_digits(n: nat) -> Seq<char>
    decreases n,
{
    if n == 0 {
        Seq::empty()
    } else {
        dec_digits(n / 10).push(digit_char(n % 10))
    }
}

/// The decimal rendering of `n`: its digits, or "0" for zero.
pub open spec fn dec_string(n: nat) -> Seq<char> {
    if n == 0 {
        seq!['0']
    } else {
        dec_digits(n)
    }
}

fn digit_to_char(d: u64) -> (c: char)
    requires
        d < 10,
    ensures
        c == digit_char(d as nat),
{
    match d {
        0 => '0',
        1 => '1',
        2 => '2',
        3 => '3',
        4 => '4',
        5 => '5',
        6 => '6',
        7 => '7',
        8 => '8',
        _ => '9',
    }
}

/// Renders `n` in decimal.
pub fn u64_string(n: u64) -> (r: String)
    ensures
        r@ == dec_string(n as nat),
{
    if n == 0 {
        let mut r = String::new();
        push_char(&mut r, '0');
        proof {
            assert(r@ =~= dec_string(0));
        }
        return r;
    }
    let mut rev: Vec<char> = Vec::new();
    let mut m = n;
    while m > 0
        invariant
            dec_digits(n as nat) == dec_digits(m as nat) + rev@.reverse(),
        decreases m,
    {
        let ghost rev0 = rev@;
        let ghost m0 = m as nat;
        rev.push(digit_to_char(m % 10));
        m = m / 10;
        proof {
            assert(rev@.reverse() =~= seq![digit_char(m0 % 10)] + rev0.reverse());
            assert(dec_digits(m0) == dec_digits(m0 / 10).push(digit_char(m0 % 10)));
            assert(dec_digits(m0 / 10) + rev@.reverse() =~= dec_digits(m0) + rev0.reverse());
        }
    }
    let mut r = String::new();
    let mut i = rev.len();
    while i > 0
        invariant
            i <= rev@.len(),
            r@ == rev@.subrange(i as int, rev@.len() as int).reverse(),
        decreases i,
    {
        i = i - 1;
        push_char(&mut r, rev[i]);
        proof {
            assert(r@ =~= rev@.subrange(i as int, rev@.len() as int).reverse());
        }
    }
    proof {
        assert(rev@.subrange(0, rev@.len() as int) =~= rev@);
        assert(dec_digits(n as nat) =~= dec_digits(0) + rev@.reverse());
        assert(r@ =~= dec_string(n as nat));
    }
    r
}

/// The decimal rendering of a signed value: a minus sign before the digits of
/// its magnitude.
pub open spec fn int_string(n: int) -> Seq<char> {
    if n < 0 {
        seq!['-'] + dec_string((-n) as nat)
    } else {
        dec_string(n as nat)
    }
}

/// Renders a signed value in decimal.
pub fn i64_string(n: i64) -> (r: String)
    ensures
        r@ == int_string(n as int),
{
    if n >= 0 {
        let r = u64_string(n as u64);
        return r;
    }
    let mut r = String::new();
    push_char(&mut r, '-');
    let magnitude: u64 = if n == i64::MIN {
        9223372036854775808u64
    } else {
        (-n) as u64
    };
    let digits = u64_string(magnitude);
    let r = r.concat(digits.as_str());
    proof {
        assert(r@ =~= int_string(n as int));
    }
    r
}

/// Whether `c` is a decimal digit.
pub open spec fn is_dec_digit(c: char) -> bool {
    '0' <= c <= '9'
}

/// The value of one digit character.
pub open spec fn dec_digit_value(c: char) -> nat {
    (c as nat - '0' as nat) as nat
}

/// The value of a digit string, most significant first.
pub open spec fn digits_value(s: Seq<char>) -> nat
    decreases s.len(),
{
    if s.len() == 0 {
        0
    } else {
        digits_value(s.drop_last()) * 10 + dec_digit_value(s.last())
    }
}

/// The digit part of a numeral: what is left after an optional plus sign.
pub open spec fn numeral_digits(s: Seq<char>) -> Seq<char> {
    if s.len() > 0 && s[0] == '+' {
        s.skip(1)
    } else {
        s
    }
}

/// What parsing an unsigned decimal number accepts: an optional leading plus
/// sign, then at least one digit.
pub open spec fn is_u64_numeral(s: Seq<char>) -> bool {
    numeral_digits(s).len() > 0 && forall|i: int|
        0 <= i < numeral_digits(s).len() ==> is_dec_digit(#[trigger] numeral_digits(s)[i])
}

/// Parses an unsigned decimal numeral: `Some` exactly on well-formed input
/// whose value fits in a `u64`.
pub fn parse_u64(s: &str) -> (r: Option<u64>)
    ensures
        r is Some <==> is_u64_numeral(s@) && digits_value(numeral_digits(s@)) <= u64::MAX,
        r is Some ==> r.unwrap() as nat == digits_value(numeral_digits(s@)),
{
    let len = s.unicode_len();
    let start: usize = if len > 0 && s.get_char(0) == '+' {
        1
    } else {
        0
    };
    proof {
        assert(numeral_digits(s@) =~= s@.skip(start as int));
    }
    if len == start {
        return None;
    }
    let mut value: u64 = 0;
    let mut i = start;
    while i < len
        invariant
            start <= i <= len,
            len == s@.len(),
            start <= 1,
            numeral_digits(s@) == s@.skip(start as int),
            forall|k: int| start <= k < i ==> is_dec_digit(#[trigger] s@[k]),
            value as nat == digits_value(s@.subrange(start as int, i as int)),
        decreases len - i,
    {
        let c = s.get_char(i);
        if c < '0' || c > '9' {
            proof {
                assert(!is_dec_digit(s@[i as int]));
                assert(!is_dec_digit(numeral_digits(s@)[i - start]));
                assert(!is_u64_numeral(s@));
            }
            return None;
        }
        let d: u64 = (c as u32 as u64) - 48;
        proof {
            assert(d as nat == dec_digit_value(c));
        }
        if value > (u64::MAX - d) / 10 {
            proof {
                lemma_digits_value_grows(s@.skip(start as int), i - start + 1);
                assert(s@.subrange(start as int, i as int + 1) =~= s@.skip(start as int).take(
                    i - start + 1,
                ));
                assert(s@.subrange(start as int, i as int) =~= s@.subrange(
                    start as int,
                    i as int + 1,
                ).drop_last());
                assert(digits_value(s@.subrange(start as int, i as int + 1)) == value * 10 + d);
                assert(value * 10 + d > u64::MAX) by {
                    assert(value >= (u64::MAX - d) / 10 + 1);
                    assert(((u64::MAX - d) / 10 + 1) * 10 >= u64::MAX - d + 1) by (nonlinear_arith);
                    vstd::arithmetic::mul::lemma_mul_inequality(
                        ((u64::MAX - d) / 10 + 1) as int,
                        value as int,
                        10,
                    );
                };
                let digits = s@.skip(start as int);
                lemma_digits_value_monotonic(digits, i - start + 1, digits.len() as int);
                assert(digits.take(digits.len() as int) =~= digits);
                assert(digits_value(numeral_digits(s@)) > u64::MAX);
            }
            return None;
        }
        value = value * 10 + d;
        i = i + 1;
        proof {
            assert(s@.subrange(start as int, i as int).drop_last() =~= s@.subrange(
                start as int,
                i as int - 1,
            ));
            assert(s@.subrange(start as int, i as int).last() == c);
        }
    }
    proof {
        assert(s@.subrange(start as int, len as int) =~= s@.skip(start as int));
        assert(is_u64_numeral(s@));
    }
    Some(value)
}

/// A digit string's value is at least the value of any of its prefixes scaled
/// by the digits that follow; in particular a longer digit string never has a
/// smaller value than the prefix times the corresponding power of ten.
proof fn lemma_digits_value_grows(s: Seq<char>, n: int)
    requires
        0 < n <= s.len(),
    ensures
        digits_value(s.take(n)) >= digits_value(s.take(n - 1)) * 10,
    decreases n,
{
    assert(s.take(n).drop_last() =~= s.take(n - 1));
    assert(digits_value(s.take(n)) == digits_value(s.take(n - 1)) * 10 + dec_digit_value(
        s.take(n).last(),
    ));
}

/// Reading further digits never shrinks the value already read.
proof fn lemma_digits_value_monotonic(s: Seq<char>, n: int, m: int)
    requires
        0 <= n <= m <= s.len(),
    ensures
        digits_value(s.take(m)) >= digits_value(s.take(n)),
    decreases m - n,
{
    if n < m {
        lemma_digits_value_monotonic(s, n, m - 1);
        if m > 0 {
            lemma_digits_value_grows(s, m);
            vstd::arithmetic::mul::lemma_mul_inequality(
                1,
                10,
                digits_value(s.take(m - 1)) as int,
            );
            assert(digits_value(s.take(m - 1)) * 10 >= digits_value(s.take(m - 1)) * 1)
                by (nonlinear_arith);
            vstd::arithmetic::mul::lemma_mul_basics(digits_value(s.take(m - 1)) as int);
        }
    }
}

} // verus!
