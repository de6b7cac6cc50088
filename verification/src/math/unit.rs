//! Values scaled to norm one.
use core::ops::Deref;
use vstd::prelude::*;

use crate::math::norm::Normed;

verus! {

/// A value divided by its norm; its model is that value.
pub struct Unit<T> {
    value: T,
}

impl<T> View for Unit<T> {
    type V = T;

    closed spec fn view(&self) -> T {
        self.value
    }
}

impl<T> Unit<T> where T: Normed, T::Norm: Clone {
    /// `value` divided by (a clone of) its norm.
    pub fn new_normalize(value: T) -> (u: Self)
        ensures
            exists|n: T::Norm| #[trigger] cloned(value.norm_value(), n) && u@ == value.unscaled(n),
    {
        Self::new_and_get(value).0
    }

    /// `value` divided by (a clone of) its norm, and the norm.
    pub fn new_and_get(value: T) -> (r: (Self, T::Norm))
        ensures
            r.1 == value.norm_value(),
            exists|n: T::Norm| #[trigger] cloned(value.norm_value(), n) && r.0@ == value.unscaled(n),
    {
        let mut value = value;
        let n = value.norm();
        let c = n.clone();
        assert(cloned(n, c));
        value.unscale_mut(c);
        (Unit { value }, n)
    }
}

impl<T: Clone> Clone for Unit<T> {
    fn clone(&self) -> (r: Self)
        ensures
            cloned(self@, r@),
    {
        Unit { value: self.value.clone() }
    }
}

impl<T: Copy> Copy for Unit<T> {}

impl<T> Deref for Unit<T> {
    type Target = T;

    fn deref(&self) -> (r: &T)
        ensures
            *r == self@,
    {
        &self.value
    }
}

impl<T> AsRef<T> for Unit<T> {
    fn as_ref(&self) -> (r: &T)
        ensures
            *r == self@,
    {
        &self.value
    }
}

} // verus!
