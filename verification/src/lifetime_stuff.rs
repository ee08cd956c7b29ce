use vstd::prelude::*;

verus! {

/// A marker carrying an extra phantom type; everything wears it.
pub trait WithPhantom<P: ?Sized> {

}

impl<T: ?Sized, P: ?Sized> WithPhantom<P> for T {

}

/// Borrowing the value a longer-lived borrow points at.
pub trait Getter<'a> {
    spec fn got(&self) -> u8;

    fn get<'b>(&'b self) -> (r: &'a u8) where 'a: 'b
        ensures
            *r == self.got(),
    ;
}

impl<'a> Getter<'a> for &'a u8 {
    open spec fn got(&self) -> u8 {
        **self
    }

    fn get<'b>(&'b self) -> (r: &'a u8) where 'a: 'b {
        *self
    }
}

} // verus!
