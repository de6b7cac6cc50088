//! Square matrices.
use vstd::prelude::*;

use crate::math::matrix::{Matrix, Owned};
use crate::math::scalar::{One, Zero};
use crate::math::storage::{Storage, StorageMut};

verus! {

/// A `SIDE` x `SIDE` matrix.
pub type MatN<T, S, const SIDE: usize> = Matrix<S, T, SIDE, SIDE>;

impl<T, const SIDE: usize> MatN<T, Owned<T, SIDE, SIDE>, SIDE> where T: Clone + Zero + One {
    /// The identity: `T::one()` on the diagonal and `T::zero()` elsewhere.
    pub fn identity() -> (m: Self)
        ensures
            forall|i: int, j: int|
                #![trigger m@.element(i, j)]
                0 <= i < SIDE && 0 <= j < SIDE ==> if i == j {
                    call_ensures(T::one, (), m@.element(i, j))
                } else {
                    call_ensures(T::zero, (), m@.element(i, j))
                },
    {
        let mut zero = <Self as Zero>::zero();
        let mut idx: usize = 0;
        while idx < SIDE
            invariant
                idx <= SIDE,
                forall|i: int, j: int|
                    #![trigger zero@.element(i, j)]
                    0 <= i < SIDE && 0 <= j < SIDE ==> if i == j && i < idx {
                        call_ensures(T::one, (), zero@.element(i, j))
                    } else {
                        call_ensures(T::zero, (), zero@.element(i, j))
                    },
            decreases SIDE - idx,
        {
            let one = T::one();
            zero.set_element(idx, idx, one);
            idx += 1;
        }
        zero
    }
}

} // verus!
