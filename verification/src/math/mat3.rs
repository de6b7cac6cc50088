//! 3 x 3 matrices.
use vstd::prelude::*;

use crate::math::matn::MatN;
use crate::math::matrix::Owned;
use crate::math::storage::{ArrayStorage, Storage};

verus! {

/// A 3 x 3 matrix.
pub type Mat3<T, S = Owned<T, 3, 3>> = MatN<T, S, 3>;

impl<T> Mat3<T> {
    /// The matrix with the given elements, listed row by row (`cXrY` is the
    /// element in column X and row Y).
    pub fn new(
        c0r0: T,
        c1r0: T,
        c2r0: T,
        c0r1: T,
        c1r1: T,
        c2r1: T,
        c0r2: T,
        c1r2: T,
        c2r2: T,
    ) -> (m: Self)
        ensures
            m@.element(0, 0) == c0r0,
            m@.element(0, 1) == c1r0,
            m@.element(0, 2) == c2r0,
            m@.element(1, 0) == c0r1,
            m@.element(1, 1) == c1r1,
            m@.element(1, 2) == c2r1,
            m@.element(2, 0) == c0r2,
            m@.element(2, 1) == c1r2,
            m@.element(2, 2) == c2r2,
            m@.spec_data() == [[c0r0, c0r1, c0r2], [c1r0, c1r1, c1r2], [c2r0, c2r1, c2r2]],
    {
        let storage = ArrayStorage::from_data(
            [[c0r0, c0r1, c0r2], [c1r0, c1r1, c1r2], [c2r0, c2r1, c2r2]],
        );
        Self::from_storage(storage)
    }
}

} // verus!
