//! Values with a norm that can be scaled.
use vstd::prelude::*;

verus! {

/// A value with a norm, which can be scaled up and down by a norm value.
/// Implementations describe their norm and scaling by the spec functions.
pub trait Normed: Sized {
    type Norm;

    /// The norm of the value.
    spec fn norm_value(&self) -> Self::Norm;

    /// The square of the norm.
    spec fn norm_squared_value(&self) -> Self::Norm;

    /// The value multiplied by `n`.
    spec fn scaled(&self, n: Self::Norm) -> Self;

    /// The value divided by `n`.
    spec fn unscaled(&self, n: Self::Norm) -> Self;

    fn norm(&self) -> (r: Self::Norm)
        ensures
            r == self.norm_value(),
    ;

    fn norm_squared(&self) -> (r: Self::Norm)
        ensures
            r == self.norm_squared_value(),
    ;

    fn scale_mut(&mut self, n: Self::Norm)
        ensures
            *final(self) == old(self).scaled(n),
    ;

    fn unscale_mut(&mut self, n: Self::Norm)
        ensures
            *final(self) == old(self).unscaled(n),
    ;
}

} // verus!
