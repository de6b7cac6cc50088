//! Normalized values.
use core::ops::Deref;
use vstd::prelude::*;
use vstd::std_specs::cmp::PartialEqSpec;

use crate::crystal::norm::Normed;
use crate::math::scalar::Zero;

verus! {

/// A value that went through `Normed::normalize`; its model is that value.
pub struct Unit<T> {
    value: T,
}

impl<T> View for Unit<T> {
    type V = T;

    closed spec fn view(&self) -> T {
        self.value
    }
}

impl<T> Unit<T> where T: Normed, T::Norm: Clone + Zero + PartialEq {
    /// `value` after `normalize`.
    pub fn new_normalize(value: T) -> (u: Self)
        ensures
            exists|z: T::Norm|
                #[trigger] call_ensures(T::Norm::zero, (), z) && (T::Norm::obeys_eq_spec() ==> u@
                    == if value.magnitude_value().eq_spec(&z) {
                    value
                } else {
                    value.unscaled(value.magnitude_value())
                }),
    {
        let mut value = value;
        value.normalize();
        Self { value }
    }
}

impl<T> Unit<T> {
    pub fn into_inner(self) -> (r: T)
        ensures
            r == self@,
    {
        self.value
    }
}

impl<T: Clone> Clone for Unit<T> {
    fn clone(&self) -> (r: Self)
        ensures
            cloned(self@, r@),
    {
        Self { value: self.value.clone() }
    }
}

impl<T: Copy> Copy for Unit<T> {}

impl<T> Deref for Unit<T> {
    type Target = T;

    fn deref(&self) -> (r: &T)
        ensures
            *r == self@,
    {
        &self.value
    }
}

impl<T> AsRef<T> for Unit<T> {
    fn as_ref(&self) -> (r: &T)
        ensures
            *r == self@,
    {
        &self.value
    }
}

} // verus!
