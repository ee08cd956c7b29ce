use crate::text::u64_string;
use vstd::prelude::*;
use vstd::string::StringExecFns;

verus! {

/// A phone that can place a call, reporting what it says.
pub trait Phone<'a> {
    spec fn call_view(&self) -> Seq<char>;

    fn call(&self) -> (r: String)
        ensures
            r@ == self.call_view(),
    ;
}

/// A phone branded with the string it was built around.
pub struct IPhone<'a> {
    pub my_str: &'a str,
}

impl<'a> Phone<'a> for IPhone<'a> {
    open spec fn call_view(&self) -> Seq<char> {
        "IPhone id: "@ + self.my_str@
    }

    fn call(&self) -> (r: String) {
        String::from_str("IPhone id: ").concat(self.my_str)
    }
}

/// A factory stamping out phones around borrowed strings.
pub trait Factory<'a> {
    type Output: Phone<'a>;

    spec fn phone_view(ms: Seq<char>) -> Seq<char>;

    fn new_phone(&self, ms: &'a str) -> (r: Self::Output)
        ensures
            r.call_view() == Self::phone_view(ms@),
    ;
}

pub struct IPhoneFactory;

impl<'a> Factory<'a> for IPhoneFactory {
    type Output = IPhone<'a>;

    open spec fn phone_view(ms: Seq<char>) -> Seq<char> {
        "IPhone id: "@ + ms
    }

    fn new_phone(&self, ms: &'a str) -> IPhone<'a> {
        IPhone { my_str: ms }
    }
}

/// Builds ten numbered phones with any factory and collects what each says.
pub fn call_phone<F: for<'a> Factory<'a>>(f: F) -> (r: Vec<String>)
    ensures
        r@.len() == 10,
{
    let mut r: Vec<String> = Vec::new();
    let mut i: u64 = 0;
    while i < 10
        invariant
            i <= 10,
            r@.len() == i,
        decreases 10 - i,
    {
        let s = u64_string(i);
        let p = f.new_phone(s.as_str());
        r.push(p.call());
        i = i + 1;
    }
    r
}

} // verus!
