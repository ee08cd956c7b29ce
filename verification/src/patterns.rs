use crate::text::parse_u64;
use vstd::prelude::*;
use vstd::string::StrSliceExecFns;
use vstd::string::StringExecFns;

verus! {

/// Relies on str's equality: two string slices compare equal exactly when
/// their characters are equal.
#[verifier::external_body]
pub fn str_eq(a: &str, b: &str) -> (r: bool)
    ensures
        r <==> a@ == b@,
{
    a == b
}

/// Whether `v` is a value `T::default()` can return.
pub open spec fn is_default_value<T: Default>(v: T) -> bool {
    call_ensures(T::default, (), v)
}

/// A strategy paired with the data it runs on.
pub struct Context<S, D> where S: Strategy<D> {
    pub s: S,
    pub data: D,
}

/// Something that can act on a piece of data.
pub trait Strategy<D> {
    fn run(&self, item: &D);
}

/// Something that owns a piece of data.
pub trait HasData {
    type Data;

    fn data(&self) -> &Self::Data;
}

impl<D, S: Strategy<D>> Context<S, D> {
    /// Runs the strategy on the held data.
    pub fn do_it(&self) {
        self.s.run(&self.data);
    }
}

impl<D, S: Strategy<D>> HasData for Context<S, D> {
    type Data = D;

    fn data(&self) -> &D {
        &self.data
    }
}

pub struct ContextStrategy;

#[derive(Debug)]
pub struct ContextData {
    pub field: String,
    pub token: u64,
}

impl Default for ContextData {
    fn default() -> (r: ContextData)
        ensures
            r.field@ == "context"@,
            r.token == u64::MAX,
    {
        ContextData { field: String::from_str("context"), token: u64::MAX }
    }
}

impl Strategy<ContextData> for ContextStrategy {
    fn run(&self, item: &ContextData) {
    }
}

/// Replacing oneself with a default: anything with a default value and the
/// demo interface below gets `take` for free. The old value is handed back
/// and a default value is left behind.
pub trait TraitTake: Sized + Default {
    fn take(&mut self) -> (r: Self)
        ensures
            r == *old(self),
            is_default_value(*final(self)),
    ;
}

impl<T: Default + SomeTrait> TraitTake for T {
    fn take(&mut self) -> (r: T) {
        let mut taken = T::default();
        core::mem::swap(self, &mut taken);
        taken
    }
}

/// The demo interface: a printable description of the value.
pub trait SomeTrait: TraitTake {
    spec fn some_view(&self) -> Seq<char>;

    fn some_method(&self) -> (r: String)
        ensures
            r@ == self.some_view(),
    ;
}

/// Hands back the value and leaves its default behind.
pub fn my_take<T: SomeTrait>(obj: &mut T) -> (r: T)
    ensures
        r == *old(obj),
        is_default_value(*final(obj)),
{
    obj.take()
}

impl SomeTrait for i32 {
    open spec fn some_view(&self) -> Seq<char> {
        crate::text::int_string(*self as int)
    }

    fn some_method(&self) -> (r: String) {
        crate::text::i64_string(*self as i64)
    }
}

impl SomeTrait for () {
    open spec fn some_view(&self) -> Seq<char> {
        "I'm the One!"@
    }

    fn some_method(&self) -> (r: String) {
        String::from_str("I'm the One!")
    }
}

/// A decoded packet, borrowing the buffer it was read from.
pub trait DecodedPacket<'a> {

}

pub struct ReferencePacket<'a> {
    pub data: &'a [u8],
}

impl<'a: 'b, 'b> DecodedPacket<'b> for ReferencePacket<'a> {

}

pub struct Decoder {}

impl Decoder {
    /// Decodes the fixed demonstration buffer into a reference packet.
    pub fn receiver(&self) -> (p: ReferencePacket<'static>)
        ensures
            p.data@ == seq![0u8, 1u8, 2u8],
    {
        let slice: &[u8] = &[0, 1, 2];
        let p = ReferencePacket { data: slice };
        proof {
            assert(p.data@ =~= seq![0u8, 1u8, 2u8]);
        }
        p
    }
}

/// A value that can report itself as a machine integer.
pub trait Fnord {
    spec fn fnord_view(&self) -> i32;

    fn do_it(&self) -> (r: i32)
        ensures
            r == self.fnord_view(),
    ;
}

impl Fnord for i32 {
    open spec fn fnord_view(&self) -> i32 {
        *self
    }

    fn do_it(&self) -> i32 {
        *self
    }
}

/// Two runs of numbers, walked as one.
pub struct YourObject {
    pub v1: Vec<i32>,
    pub v2: Vec<i32>,
}

impl YourObject {
    /// Both runs, first one first.
    pub fn iter_as(&self) -> (r: Vec<i32>)
        ensures
            r@ == self.v1@ + self.v2@,
    {
        let mut r: Vec<i32> = Vec::new();
        let mut i: usize = 0;
        while i < self.v1.len()
            invariant
                i <= self.v1@.len(),
                r@ == self.v1@.take(i as int),
            decreases self.v1@.len() - i,
        {
            r.push(self.v1[i]);
            proof {
                assert(r@ =~= self.v1@.take(i as int + 1));
            }
            i = i + 1;
        }
        let mut j: usize = 0;
        while j < self.v2.len()
            invariant
                j <= self.v2@.len(),
                r@ == self.v1@.take(self.v1@.len() as int) + self.v2@.take(j as int),
            decreases self.v2@.len() - j,
        {
            r.push(self.v2[j]);
            proof {
                assert(r@ =~= self.v1@.take(self.v1@.len() as int) + self.v2@.take(j as int + 1));
            }
            j = j + 1;
        }
        proof {
            assert(self.v1@.take(self.v1@.len() as int) =~= self.v1@);
            assert(self.v2@.take(self.v2@.len() as int) =~= self.v2@);
            assert(r@ =~= self.v1@ + self.v2@);
        }
        r
    }
}

/// A named demonstration value.
#[derive(Debug)]
pub struct TestThingy<'a> {
    pub label: &'a str,
}

/// Looks a number name up among the known demonstration values.
pub fn value_for_num(num: &str) -> (r: Option<TestThingy<'static>>)
    ensures
        r is Some <==> num@ == "one"@ || num@ == "two"@ || num@ == "three"@,
        r is Some ==> r.unwrap().label@ == num@,
{
    if str_eq(num, "one") {
        Some(TestThingy { label: "one" })
    } else if str_eq(num, "two") {
        Some(TestThingy { label: "two" })
    } else if str_eq(num, "three") {
        Some(TestThingy { label: "three" })
    } else {
        None
    }
}

/// A person record read from a comma-separated line.
#[derive(Debug)]
pub struct Person {
    pub name: String,
    pub age: usize,
}

impl Default for Person {
    fn default() -> (r: Person)
        ensures
            r.name@ == "John"@,
            r.age == 30,
    {
        Person { name: String::from_str("John"), age: 30 }
    }
}

impl Person {
    /// Reads "name,age" into a record. A line without a comma, with an empty
    /// name, or whose age does not read as a number yields the default person.
    pub fn from(s: &str) -> (r: Person)
        ensures
            (r.name@ == "John"@ && r.age == 30) || (0 < r.name@.len() < s@.len() && r.name@ == s@.take(
                r.name@.len() as int,
            ) && s@[r.name@.len() as int] == ',' && forall|k: int|
                0 <= k < r.name@.len() ==> s@[k] != ','),
    {
        let text_len = s.unicode_len();
        let mut comma1: Option<usize> = None;
        let mut comma2: Option<usize> = None;
        let mut i: usize = 0;
        while i < text_len
            invariant
                i <= text_len,
                text_len == s@.len(),
                comma1 is None ==> forall|k: int| 0 <= k < i ==> s@[k] != ',',
                comma1 is Some ==> comma1.unwrap() < i && s@[comma1.unwrap() as int] == ','
                    && forall|k: int| 0 <= k < comma1.unwrap() ==> s@[k] != ',',
                comma2 is Some ==> comma1 is Some && comma1.unwrap() < comma2.unwrap() < i,
            decreases text_len - i,
        {
            if s.get_char(i) == ',' {
                if comma1.is_none() {
                    comma1 = Some(i);
                } else if comma2.is_none() {
                    comma2 = Some(i);
                }
                proof {
                    assert(comma1 is Some);
                }
            }
            i = i + 1;
        }
        match comma1 {
            None => Person::default(),
            Some(c1) => {
                if c1 == 0 {
                    return Person::default();
                }
                let age_end = match comma2 {
                    Some(c2) => c2,
                    None => text_len,
                };
                let name = s.substring_char(0, c1).to_owned();
                let age_str = s.substring_char(c1 + 1, age_end);
                match parse_u64(age_str) {
                    Some(v) if v <= usize::MAX as u64 => Person { name, age: v as usize },
                    _ => Person::default(),
                }
            },
        }
    }
}

/// The words as mathematical character strings.
pub open spec fn word_views(s: Seq<String>) -> Seq<Seq<char>> {
    s.map_values(|x: String| x@)
}

/// All orderings of the given words, each distinct word leading once per
/// recursion level. Every ordering holds exactly the words it was given, and
/// a non-empty input yields at least one ordering.
pub fn unique_permutations(elements: Vec<String>) -> (r: Vec<Vec<String>>)
    ensures
        forall|k: int|
            0 <= k < r@.len() ==> word_views((#[trigger] r@[k])@).to_multiset() == word_views(
                elements@,
            ).to_multiset(),
        r@.len() >= 1,
    decreases elements@.len(),
{
    let ghost views = word_views(elements@);
    proof {
        assert(forall|k: int| 0 <= k < elements@.len() ==> views[k] == (#[trigger] elements@[k])@);
    }
    let mut ret: Vec<Vec<String>> = Vec::new();
    if elements.len() == 0 {
        let empty_perm: Vec<String> = Vec::new();
        proof {
            assert(word_views(empty_perm@) =~= word_views(elements@));
        }
        ret.push(empty_perm);
        return ret;
    }
    let mut pos: usize = 0;
    while pos < elements.len()
        invariant
            pos <= elements@.len(),
            elements@.len() > 0,
            views == word_views(elements@),
            forall|k: int| 0 <= k < elements@.len() ==> views[k] == (#[trigger] elements@[k])@,
            forall|k: int|
                0 <= k < ret@.len() ==> word_views((#[trigger] ret@[k])@).to_multiset()
                    == views.to_multiset(),
            pos > 0 ==> ret@.len() >= 1,
        decreases elements@.len() - pos,
    {
        let mut seen_before = false;
        let mut b: usize = 0;
        while b < pos
            invariant
                b <= pos,
                pos < elements@.len(),
            decreases pos - b,
        {
            if str_eq(elements[b].as_str(), elements[pos].as_str()) {
                seen_before = true;
            }
            b = b + 1;
        }
        if pos == 0 || !seen_before {
            let first = elements[pos].clone();
            let mut remaining: Vec<String> = Vec::new();
            let mut k: usize = 0;
            while k < elements.len()
                invariant
                    k <= elements@.len(),
                    pos < elements@.len(),
                    views == word_views(elements@),
                    forall|q: int|
                        0 <= q < elements@.len() ==> views[q] == (#[trigger] elements@[q])@,
                    k <= pos ==> word_views(remaining@) =~= views.subrange(0, k as int),
                    k > pos ==> word_views(remaining@) =~= views.subrange(0, pos as int)
                        + views.subrange(pos as int + 1, k as int),
                decreases elements@.len() - k,
            {
                let ghost rem0 = remaining@;
                if k != pos {
                    remaining.push(elements[k].clone());
                    proof {
                        assert(word_views(remaining@) =~= word_views(rem0).push(
                            elements@[k as int]@,
                        ));
                    }
                }
                k = k + 1;
            }
            proof {
                assert(word_views(remaining@) =~= views.remove(pos as int));
            }
            let ghost rem_views = word_views(remaining@);
            let tails = unique_permutations(remaining);
            proof {
                broadcast use vstd::seq_lib::to_multiset_remove;
                broadcast use vstd::multiset::group_multiset_axioms;

                assert(views.remove(pos as int).to_multiset() =~= views.to_multiset().remove(
                    views[pos as int],
                ));
                assert(views.contains(views[pos as int]));
                vstd::seq_lib::to_multiset_contains(views, views[pos as int]);
            }
            let ghost ret_len0 = ret@.len();
            let mut t: usize = 0;
            while t < tails.len()
                invariant
                    t <= tails@.len(),
                    ret@.len() == ret_len0 + t,
                    first@ == views[pos as int],
                    pos < elements@.len(),
                    views == word_views(elements@),
                    rem_views == views.remove(pos as int),
                    rem_views.to_multiset() == views.to_multiset().remove(views[pos as int]),
                    views.to_multiset().count(views[pos as int]) > 0,
                    forall|q: int|
                        0 <= q < tails@.len() ==> word_views(
                            (#[trigger] tails@[q])@,
                        ).to_multiset() == rem_views.to_multiset(),
                    forall|q: int|
                        0 <= q < ret@.len() ==> word_views((#[trigger] ret@[q])@).to_multiset()
                            == views.to_multiset(),
                decreases tails@.len() - t,
            {
                let mut perm: Vec<String> = Vec::new();
                perm.push(first.clone());
                let tail = &tails[t];
                let mut w: usize = 0;
                while w < tail.len()
                    invariant
                        w <= tail@.len(),
                        tail == tails@[t as int],
                        t < tails@.len(),
                        pos < views.len(),
                        first@ == views[pos as int],
                        word_views(perm@) =~= seq![views[pos as int]] + word_views(
                            tail@,
                        ).subrange(0, w as int),
                    decreases tail@.len() - w,
                {
                    let ghost perm0 = perm@;
                    perm.push(tail[w].clone());
                    proof {
                        assert(word_views(perm@) =~= word_views(perm0).push(
                            tail@[w as int]@,
                        ));
                        assert(word_views(tail@)[w as int] == tail@[w as int]@);
                        assert(word_views(perm@) =~= seq![views[pos as int]] + word_views(
                            tail@,
                        ).subrange(0, w as int + 1));
                    }
                    w = w + 1;
                }
                proof {
                    broadcast use vstd::seq_lib::to_multiset_remove;
                    broadcast use vstd::multiset::group_multiset_axioms;

                    assert(word_views(tail@).subrange(0, tail@.len() as int) =~= word_views(
                        tail@,
                    ));
                    assert(word_views(perm@) =~= seq![views[pos as int]] + word_views(tail@));
                    vstd::seq_lib::lemma_multiset_commutative(
                        seq![views[pos as int]],
                        word_views(tail@),
                    );
                    assert(seq![views[pos as int]] =~= Seq::<Seq<char>>::empty().push(
                        views[pos as int],
                    ));
                    vstd::seq_lib::to_multiset_build(
                        Seq::<Seq<char>>::empty(),
                        views[pos as int],
                    );
                    assert(views.contains(views[pos as int]));
                    vstd::seq_lib::to_multiset_contains(views, views[pos as int]);
                    assert(views.to_multiset().count(views[pos as int]) > 0);
                    assert(word_views(tail@).to_multiset() == rem_views.to_multiset());
                    assert(word_views(perm@).to_multiset() == seq![
                        views[pos as int],
                    ].to_multiset().add(word_views(tail@).to_multiset()));
                    broadcast use vstd::seq_lib::to_multiset_len;

                    vstd::multiset::lemma_multiset_empty_len(
                        Seq::<Seq<char>>::empty().to_multiset(),
                    );
                    assert(Seq::<Seq<char>>::empty().to_multiset()
                        =~= vstd::multiset::Multiset::<Seq<char>>::empty());
                    assert(seq![views[pos as int]].to_multiset()
                        =~= vstd::multiset::Multiset::<Seq<char>>::empty().insert(
                        views[pos as int],
                    ));
                    assert(word_views(perm@).to_multiset() =~= views.to_multiset());
                }
                ret.push(perm);
                t = t + 1;
            }
            proof {
                assert(tails@.len() >= 1);
                assert(ret@.len() >= 1);
            }
        }
        pos = pos + 1;
    }
    ret
}

/// Labels an empty string; any other string passes through unchanged.
pub fn f(s: &str) -> (r: String)
    ensures
        s@.len() == 0 ==> r@ == "empty"@,
        s@.len() > 0 ==> r@ == s@,
{
    if s.unicode_len() == 0 {
        String::from_str("empty")
    } else {
        s.to_owned()
    }
}

/// Whether position `i` holds the first occurrence of its value.
pub open spec fn is_first_occurrence(s: Seq<i32>, i: int) -> bool {
    forall|j: int| 0 <= j < i ==> s[j] != s[i]
}

/// How many distinct values a sequence holds.
pub open spec fn distinct_count(s: Seq<i32>) -> nat
    decreases s.len(),
{
    if s.len() == 0 {
        0
    } else {
        distinct_count(s.drop_last()) + if exists|j: int|
            0 <= j < s.len() - 1 && s[j] == s.last() {
            0nat
        } else {
            1nat
        }
    }
}

/// Replaces each value by a small id, first come first numbered: two
/// positions get the same id exactly when they hold the same value, and the
/// first occurrence of each distinct value takes the smallest unused id -
/// the number of distinct values seen before it.
pub fn abstract_iterator(input: &Vec<i32>) -> (r: Vec<usize>)
    ensures
        r@.len() == input@.len(),
        forall|i: int, j: int|
            #![trigger r@[i], r@[j]]
            0 <= i < input@.len() && 0 <= j < input@.len() ==> (r@[i] == r@[j] <==> input@[i]
                == input@[j]),
        forall|i: int|
            0 <= i < input@.len() && is_first_occurrence(input@, i) ==> #[trigger] r@[i]
                == distinct_count(input@.take(i)),
{
    let mut dict: Vec<i32> = Vec::new();
    let mut out: Vec<usize> = Vec::new();
    let mut pos: usize = 0;
    while pos < input.len()
        invariant
            pos <= input@.len(),
            out@.len() == pos,
            dict@.len() <= pos,
            dict@.len() == distinct_count(input@.take(pos as int)),
            forall|a: int, b: int|
                0 <= a < b < dict@.len() ==> #[trigger] dict@[a] != #[trigger] dict@[b],
            forall|q: int|
                0 <= q < dict@.len() ==> exists|j: int|
                    0 <= j < pos && input@[j] == #[trigger] dict@[q],
            forall|k: int|
                0 <= k < pos ==> #[trigger] out@[k] < dict@.len() && dict@[out@[k] as int]
                    == input@[k] && out@[k] <= k,
            forall|k: int|
                0 <= k < pos && is_first_occurrence(input@, k) ==> #[trigger] out@[k]
                    == distinct_count(input@.take(k)),
        decreases input@.len() - pos,
    {
        let elem = input[pos];
        let mut found: Option<usize> = None;
        let mut d: usize = 0;
        while d < dict.len()
            invariant
                d <= dict@.len(),
                found is None ==> forall|q: int| 0 <= q < d ==> #[trigger] dict@[q] != elem,
                found is Some ==> found.unwrap() < dict@.len()
                    && dict@[found.unwrap() as int] == elem,
            decreases dict@.len() - d + (if found is None {
                1int
            } else {
                0int
            }),
        {
            if found.is_none() && dict[d] == elem {
                found = Some(d);
            }
            d = d + 1;
        }
        proof {
            assert(input@.take(pos as int + 1).drop_last() =~= input@.take(pos as int));
            assert(input@.take(pos as int + 1).last() == input@[pos as int]);
        }
        let id = match found {
            Some(at) => {
                proof {
                    assert(dict@[at as int] == elem);
                    let j = choose|j: int| 0 <= j < pos && input@[j] == dict@[at as int];
                    assert(input@.take(pos as int + 1)[j] == elem);
                    assert(distinct_count(input@.take(pos as int + 1)) == dict@.len());
                }
                at
            },
            None => {
                let fresh = dict.len();
                proof {
                    assert forall|j: int| 0 <= j < pos implies input@[j] != elem by {
                        if input@[j] == elem {
                            assert(dict@[out@[j] as int] == input@[j]);
                        }
                    }
                    assert(is_first_occurrence(input@, pos as int));
                    assert forall|j: int|
                        0 <= j < input@.take(pos as int + 1).len() - 1 implies #[trigger] (
                    input@.take(pos as int + 1)[j]) != input@.take(pos as int + 1).last() by {
                        assert(input@.take(pos as int + 1)[j] == input@[j]);
                    }
                    assert(distinct_count(input@.take(pos as int + 1)) == dict@.len() + 1);
                }
                dict.push(elem);
                fresh
            },
        };
        out.push(id);
        pos = pos + 1;
    }
    proof {
        assert(input@.take(input@.len() as int) =~= input@);
        assert forall|i: int, j: int|
            #![trigger out@[i], out@[j]]
            0 <= i < input@.len() && 0 <= j < input@.len() implies (out@[i] == out@[j] <==> input@[i]
            == input@[j]) by {
            assert(dict@[out@[i] as int] == input@[i]);
            assert(dict@[out@[j] as int] == input@[j]);
            if out@[i] != out@[j] && input@[i] == input@[j] {
                if out@[i] < out@[j] {
                    assert(dict@[out@[i] as int] != dict@[out@[j] as int]);
                } else {
                    assert(dict@[out@[j] as int] != dict@[out@[i] as int]);
                }
            }
        }
    }
    out
}

} // verus!
