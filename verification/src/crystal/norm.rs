//! Values with a magnitude that can be scaled.
use vstd::prelude::*;
use vstd::std_specs::cmp::PartialEqSpec;

use crate::math::scalar::Zero;

verus! {

/// A value with a magnitude, which can be scaled up and down by a magnitude
/// value. Implementations describe their magnitude and scaling by the spec
/// functions.
pub trait Normed: Sized {
    type Norm;

    /// The magnitude of the value.
    spec fn magnitude_value(&self) -> Self::Norm;

    /// The square of the magnitude.
    spec fn magnitude_squared_value(&self) -> Self::Norm;

    /// The value multiplied by `n`.
    spec fn scaled(&self, n: Self::Norm) -> Self;

    /// The value divided by `n`.
    spec fn unscaled(&self, n: Self::Norm) -> Self;

    fn magnitude(&self) -> (r: Self::Norm)
        ensures
            r == self.magnitude_value(),
    ;

    fn magnitude_squared(&self) -> (r: Self::Norm)
        ensures
            r == self.magnitude_squared_value(),
    ;

    fn scale_mut(&mut self, n: Self::Norm)
        ensures
            *final(self) == old(self).scaled(n),
    ;

    fn unscale_mut(&mut self, n: Self::Norm)
        ensures
            *final(self) == old(self).unscaled(n),
    ;

    /// Divides the value by its magnitude, so that it comes out with
    /// magnitude one; a value whose magnitude equals `Norm::zero()` is left
    /// unchanged, as there is nothing to divide by.
    fn normalize(&mut self) where Self::Norm: Zero + PartialEq
        ensures
            exists|z: Self::Norm|
                #[trigger] call_ensures(Self::Norm::zero, (), z) && (Self::Norm::obeys_eq_spec()
                    ==> *final(self) == if old(self).magnitude_value().eq_spec(&z) {
                    *old(self)
                } else {
                    old(self).unscaled(old(self).magnitude_value())
                }),
    {
        let n = self.magnitude();
        let z = Self::Norm::zero();
        if !(n == z) {
            self.unscale_mut(n)
        }
    }
}

} // verus!
