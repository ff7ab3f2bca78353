//! A small owning cell with a contracted accessor.

use vstd::prelude::*;

verus! {

/// A value holder whose contents are reached through `get` and replaced
/// through `set`. Its view is the held value itself.
pub struct Ptr<T> {
    value: T,
}

impl<T> View for Ptr<T> {
    type V = T;

    closed spec fn view(&self) -> T {
        self.value
    }
}

impl<T> Ptr<T> {
    /// Wrap a value.
    pub fn new(a: T) -> (p: Ptr<T>)
        ensures
            p@ == a,
    {
        Ptr { value: a }
    }

    /// Borrow the held value.
    pub fn get(&self) -> (r: &T)
        ensures
            *r == self@,
    {
        &self.value
    }

    /// Replace the held value.
    pub fn set(&mut self, a: T)
        ensures
            final(self)@ == a,
    {
        self.value = a;
    }
}

} // verus!
