//! Uniform unwrapping of checked results and plain values.
use vstd::prelude::*;

use crate::dec19x19::Dec19x19;

verus! {

pub trait UnwrapAll: Sized {
    type Output;

    /// Whether there is a value to take.
    spec fn has_value(&self) -> bool;

    fn unwrap_all(self) -> Self::Output
        requires
            self.has_value(),
    ;
}

impl<T> UnwrapAll for Option<T> {
    type Output = T;

    open spec fn has_value(&self) -> bool {
        self is Some
    }

    fn unwrap_all(self) -> (r: T)
        ensures
            self == Some(r),
    {
        self.unwrap()
    }
}

impl UnwrapAll for Dec19x19 {
    type Output = Self;

    open spec fn has_value(&self) -> bool {
        true
    }

    fn unwrap_all(self) -> (r: Self)
        ensures
            r == self,
    {
        self
    }
}

} // verus!
