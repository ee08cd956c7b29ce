use crate::text::{dec_string, push_char};
use vstd::prelude::*;
use vstd::string::StringExecFns;

verus! {

/// What the counting game says for one number.
pub open spec fn fizzy_view(n: u64) -> Seq<char> {
    if n % 3 == 0 && n % 5 == 0 {
        "FizzBuzz"@
    } else if n % 3 == 0 {
        "Fizz"@
    } else if n % 5 == 0 {
        "Buzz"@
    } else {
        dec_string(n as nat)
    }
}

/// Plays one round of the counting game: multiples of three say Fizz,
/// multiples of five say Buzz, multiples of both say FizzBuzz, and anything
/// else says itself.
pub fn fizzy(n: u64) -> (r: String)
    ensures
        r@ == fizzy_view(n),
{
    if n % 3 == 0 && n % 5 == 0 {
        String::from_str("FizzBuzz")
    } else if n % 3 == 0 {
        String::from_str("Fizz")
    } else if n % 5 == 0 {
        String::from_str("Buzz")
    } else {
        crate::text::u64_string(n)
    }
}

/// One step of the Syracuse iteration: halve an even number, triple an odd
/// one and add one.
pub fn syracuse(n: u128) -> (r: u128)
    requires
        n % 2 == 1 ==> 3 * n + 1 <= u128::MAX,
    ensures
        n % 2 == 0 ==> r == n / 2,
        n % 2 == 1 ==> r == 3 * n + 1,
{
    if n % 2 == 0 {
        n / 2
    } else {
        n * 3 + 1
    }
}

/// A shared interface dispatched over a closed set of variants.
pub trait Shared {
    spec fn f_spec(&self) -> usize;

    fn f(&self) -> (r: usize)
        ensures
            r == self.f_spec(),
    ;
}

pub struct A;

impl Shared for A {
    open spec fn f_spec(&self) -> usize {
        1
    }

    fn f(&self) -> usize {
        1
    }
}

pub struct B;

impl Shared for B {
    open spec fn f_spec(&self) -> usize {
        2
    }

    fn f(&self) -> usize {
        2
    }
}

/// The closed set of variants, itself sharing the interface.
pub enum E {
    VarA(A),
    VarB(B),
}

impl Shared for E {
    open spec fn f_spec(&self) -> usize {
        match self {
            E::VarA(x) => x.f_spec(),
            E::VarB(x) => x.f_spec(),
        }
    }

    fn f(&self) -> usize {
        match self {
            E::VarA(x) => x.f(),
            E::VarB(x) => x.f(),
        }
    }
}

/// A bulky value added element by element.
#[derive(Clone)]
pub struct Big {
    pub things: Vec<u64>,
}

impl Big {
    /// The elementwise sum of two equally long values.
    pub fn add_big(&self, rhs: &Big) -> (r: Big)
        requires
            self.things@.len() == rhs.things@.len(),
            forall|i: int|
                0 <= i < self.things@.len() ==> self.things@[i] + rhs.things@[i] <= u64::MAX,
        ensures
            r.things@.len() == self.things@.len(),
            forall|i: int|
                0 <= i < self.things@.len() ==> #[trigger] r.things@[i] == self.things@[i]
                    + rhs.things@[i],
    {
        let mut things: Vec<u64> = Vec::new();
        let mut i: usize = 0;
        while i < self.things.len()
            invariant
                i <= self.things@.len(),
                self.things@.len() == rhs.things@.len(),
                forall|k: int|
                    0 <= k < self.things@.len() ==> self.things@[k] + rhs.things@[k] <= u64::MAX,
                things@.len() == i,
                forall|k: int|
                    0 <= k < i ==> #[trigger] things@[k] == self.things@[k] + rhs.things@[k],
            decreases self.things@.len() - i,
        {
            things.push(self.things[i] + rhs.things[i]);
            i = i + 1;
        }
        Big { things }
    }
}

/// The character for one digit of a positional system up to base 36: decimal
/// digits first, then lowercase letters.
pub open spec fn radix_digit_char(d: nat) -> char {
    if d < 10 {
        crate::text::digit_char(d)
    } else if d == 10 {
        'a'
    } else if d == 11 {
        'b'
    } else if d == 12 {
        'c'
    } else if d == 13 {
        'd'
    } else if d == 14 {
        'e'
    } else if d == 15 {
        'f'
    } else if d == 16 {
        'g'
    } else if d == 17 {
        'h'
    } else if d == 18 {
        'i'
    } else if d == 19 {
        'j'
    } else if d == 20 {
        'k'
    } else if d == 21 {
        'l'
    } else if d == 22 {
        'm'
    } else if d == 23 {
        'n'
    } else if d == 24 {
        'o'
    } else if d == 25 {
        'p'
    } else if d == 26 {
        'q'
    } else if d == 27 {
        'r'
    } else if d == 28 {
        's'
    } else if d == 29 {
        't'
    } else if d == 30 {
        'u'
    } else if d == 31 {
        'v'
    } else if d == 32 {
        'w'
    } else if d == 33 {
        'x'
    } else if d == 34 {
        'y'
    } else {
        'z'
    }
}

/// The digits of `n` in base `b`, most significant first; empty for zero.
pub open spec fn radix_digits(n: nat, b: nat) -> Seq<char>
    decreases n,
    via radix_digits_decreases
{
    if n == 0 || b < 2 {
        Seq::empty()
    } else {
        radix_digits(n / b, b).push(radix_digit_char(n % b))
    }
}

#[via_fn]
proof fn radix_digits_decreases(n: nat, b: nat) {
    if !(n == 0 || b < 2) {
        assert(n / b < n) by (nonlinear_arith)
            requires
                n >= 1,
                b >= 2,
        ;
    }
}

/// The rendering of a signed value in base `b`: a minus sign, then the digits
/// of the magnitude, or "0" for zero.
pub open spec fn radix_string(x: int, b: nat) -> Seq<char> {
    if x == 0 {
        seq!['0']
    } else if x < 0 {
        seq!['-'] + radix_digits((-x) as nat, b)
    } else {
        radix_digits(x as nat, b)
    }
}

/// A number paired with the base it renders in.
pub struct Radix {
    pub x: i32,
    pub radix: u32,
}

impl Radix {
    /// Accepts only bases from two to thirty-six.
    pub fn new(x: i32, radix: u32) -> (r: Result<Radix, &'static str>)
        ensures
            (r is Ok) <==> 2 <= radix <= 36,
            r is Ok ==> r.unwrap().x == x && r.unwrap().radix == radix,
    {
        if radix < 2 || radix > 36 {
            Err("Unnsupported radix")
        } else {
            Ok(Radix { x, radix })
        }
    }

    /// The value written in the chosen base.
    pub fn render(&self) -> (r: String)
        requires
            2 <= self.radix <= 36,
            self.x > i32::MIN,
        ensures
            r@ == radix_string(self.x as int, self.radix as nat),
    {
        if self.x == 0 {
            let zero = String::from_str("0");
            proof {
                reveal_strlit("0");
                assert(zero@ =~= radix_string(0, self.radix as nat));
            }
            return zero;
        }
        let negative = self.x < 0;
        let mut m: u64 = if negative {
            (-self.x) as u64
        } else {
            self.x as u64
        };
        let ghost m0 = m as nat;
        let b = self.radix as u64;
        let mut rev: Vec<char> = Vec::new();
        while m > 0
            invariant
                2 <= b <= 36,
                radix_digits(m0, b as nat) == radix_digits(m as nat, b as nat) + rev@.reverse(),
            decreases m,
        {
            let ghost rev0 = rev@;
            let ghost mp = m as nat;
            let d = m % b;
            rev.push(radix_to_char(d));
            m = m / b;
            proof {
                assert(rev@.reverse() =~= seq![radix_digit_char(mp % b as nat)] + rev0.reverse());
                assert(radix_digits(mp, b as nat) == radix_digits(mp / b as nat, b as nat).push(
                    radix_digit_char(mp % b as nat),
                ));
                assert(radix_digits(mp / b as nat, b as nat) + rev@.reverse() =~= radix_digits(
                    mp,
                    b as nat,
                ) + rev0.reverse());
            }
        }
        let mut r = String::new();
        if negative {
            push_char(&mut r, '-');
        }
        let ghost head = r@;
        let mut i = rev.len();
        while i > 0
            invariant
                i <= rev@.len(),
                r@ == head + rev@.subrange(i as int, rev@.len() as int).reverse(),
            decreases i,
        {
            i = i - 1;
            push_char(&mut r, rev[i]);
            proof {
                assert(r@ =~= head + rev@.subrange(i as int, rev@.len() as int).reverse());
            }
        }
        proof {
            assert(rev@.subrange(0, rev@.len() as int) =~= rev@);
            assert(radix_digits(m0, b as nat) =~= radix_digits(0, b as nat) + rev@.reverse());
            assert(r@ =~= radix_string(self.x as int, self.radix as nat));
        }
        r
    }
}

fn radix_to_char(d: u64) -> (c: char)
    requires
        d < 36,
    ensures
        c == radix_digit_char(d as nat),
{
    match d {
        0 => '0',
        1 => '1',
        2 => '2',
        3 => '3',
        4 => '4',
        5 => '5',
        6 => '6',
        7 => '7',
        8 => '8',
        9 => '9',
        10 => 'a',
        11 => 'b',
        12 => 'c',
        13 => 'd',
        14 => 'e',
        15 => 'f',
        16 => 'g',
        17 => 'h',
        18 => 'i',
        19 => 'j',
        20 => 'k',
        21 => 'l',
        22 => 'm',
        23 => 'n',
        24 => 'o',
        25 => 'p',
        26 => 'q',
        27 => 'r',
        28 => 's',
        29 => 't',
        30 => 'u',
        31 => 'v',
        32 => 'w',
        33 => 'x',
        34 => 'y',
        _ => 'z',
    }
}

} // verus!
