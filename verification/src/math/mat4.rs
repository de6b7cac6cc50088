//! 4 x 4 matrices.
use vstd::prelude::*;

use crate::math::matn::MatN;
use crate::math::matrix::Owned;
use crate::math::scalar::{One, Zero};
use crate::math::storage::Storage;
use crate::math::vector::Vec3;

verus! {

/// A 4 x 4 matrix.
pub type Mat4<T, S = Owned<T, 4, 4>> = MatN<T, S, 4>;

impl<T> Mat4<T> {
    /// The translation by `direction`: the identity with clones of the three
    /// components of `direction` in the first three rows of the last column.
    pub fn new_translate(direction: Vec3<T>) -> (m: Self) where
        T: Clone + Zero + One + core::ops::Mul<T, Output = T>,
        ensures
            forall|i: int, j: int|
                #![trigger m@.element(i, j)]
                0 <= i < 4 && 0 <= j < 4 ==> if j == 3 && i < 3 {
                    cloned(direction@.element(i, 0), m@.element(i, j))
                } else if i == j {
                    call_ensures(T::one, (), m@.element(i, j))
                } else {
                    call_ensures(T::zero, (), m@.element(i, j))
                },
    {
        let mut matrix = Self::identity();
        let x = direction.storage().get_unchecked(0, 0).clone();
        let y = direction.storage().get_unchecked(1, 0).clone();
        let z = direction.storage().get_unchecked(2, 0).clone();
        assert(cloned(direction@.element(0, 0), x));
        assert(cloned(direction@.element(1, 0), y));
        assert(cloned(direction@.element(2, 0), z));
        matrix.set_element(0, 3, x);
        matrix.set_element(1, 3, y);
        matrix.set_element(2, 3, z);
        matrix
    }
}

} // verus!
