use vstd::prelude::*;
use vstd::string::StrSliceExecFns;

verus! {

pub struct Struct;

pub struct Read {
    pub toolset: Toolset,
}

pub struct Toolset {
    pub drill: Drill,
}

pub struct Drill;

/// A one-shot helper: consumed with a borrowed argument, leaving its output.
pub trait Helper<'a, T> {
    type Output: 'a;

    fn call(self, arg: &'a T) -> Self::Output;
}

/// Borrows every owned string in the list.
pub fn setup<'a>(v: &'a Vec<String>) -> (r: Vec<&'a str>)
    ensures
        r@.len() == v@.len(),
        forall|i: int| 0 <= i < v@.len() ==> (#[trigger] r@[i])@ == v@[i]@,
{
    let mut r: Vec<&str> = Vec::new();
    let mut i: usize = 0;
    while i < v.len()
        invariant
            i <= v@.len(),
            r@.len() == i,
            forall|k: int| 0 <= k < i ==> (#[trigger] r@[k])@ == v@[k]@,
        decreases v@.len() - i,
    {
        r.push(v[i].as_str());
        i = i + 1;
    }
    r
}

/// A source whose answer depends only on the parity of the index.
pub trait DataSource<'a> {
    spec fn value_view(&self, index: usize) -> Seq<char>;

    fn get_value(&'a self, index: usize) -> (r: &'a str)
        ensures
            r@ == self.value_view(index),
    ;
}

/// Holds one answer for odd indices and one for even.
pub struct OddOrEven {
    pub odd: String,
    pub even: String,
}

impl<'a> DataSource<'a> for OddOrEven {
    open spec fn value_view(&self, index: usize) -> Seq<char> {
        if index % 2 == 0 {
            self.even@
        } else {
            self.odd@
        }
    }

    fn get_value(&'a self, index: usize) -> (r: &'a str) {
        if index % 2 == 0 {
            self.even.as_str()
        } else {
            self.odd.as_str()
        }
    }
}

} // verus!
