//! Public iteration traits of this library, kept for callers, in their
//! sequential form: the items come out in order, one after the other.
use vstd::prelude::*;

verus! {

/// Conversion into an iterator over owned items.
pub trait IntoIter<T> {
    fn into_par_iter(self) -> T;
}

/// Iteration over borrowed items.
pub trait Iter<'a, T> {
    fn par_iter(&'a self) -> T;
}

impl IntoIter<std::ops::Range<usize>> for std::ops::Range<usize> {
    fn into_par_iter(self) -> std::ops::Range<usize> {
        self
    }
}

impl<A> IntoIter<std::vec::IntoIter<A>> for Vec<A> {
    fn into_par_iter(self) -> std::vec::IntoIter<A> {
        self.into_iter()
    }
}

impl<'a, A> Iter<'a, std::slice::Iter<'a, A>> for Vec<A> {
    fn par_iter(&'a self) -> std::slice::Iter<'a, A> {
        self.iter()
    }
}

} // verus!
