//! Matrices of `R` rows and `C` columns over a storage type.
use core::marker::PhantomData;
use vstd::prelude::*;
use vstd::std_specs::convert::{FromSpecImpl, IntoSpec};

use crate::math::scalar::{One, Scalar, Zero};
use crate::math::storage::{ArrayStorage, Storage, StorageMut};

verus! {

/// The storage that a matrix of a given shape owns.
pub type Owned<T, const R: usize, const C: usize> = ArrayStorage<T, R, C>;

/// An `R` x `C` matrix with elements of type `T` held in storage `S`; its
/// model is its storage.
pub struct Matrix<S, T: Scalar, const R: usize, const C: usize> {
    pub(crate) storage: S,
    pub(crate) _marker: PhantomData<T>,
}

impl<S, T, const R: usize, const C: usize> View for Matrix<S, T, R, C> {
    type V = S;

    closed spec fn view(&self) -> S {
        self.storage
    }
}

impl<S, T, const R: usize, const C: usize> Matrix<S, T, R, C> {
    /// The matrix held in the given storage.
    pub closed spec fn spec_with_storage(storage: S) -> Self {
        Matrix { storage, _marker: PhantomData }
    }

    /// The storage of the matrix made from `storage` is `storage`.
    pub proof fn lemma_with_storage(storage: S)
        ensures
            Self::spec_with_storage(storage)@ == storage,
    {
    }

    pub(crate) fn from_storage(storage: S) -> (m: Self)
        ensures
            m@ == storage,
            m == Self::spec_with_storage(storage),
    {
        Self { storage, _marker: PhantomData }
    }

    pub fn shape(&self) -> (r: (usize, usize))
        ensures
            r == (R, C),
    {
        (R, C)
    }

    /// The storage of the matrix.
    pub(crate) fn storage(&self) -> (r: &S)
        ensures
            *r == self@,
    {
        &self.storage
    }

    /// Replaces one element of the matrix.
    pub(crate) fn set_element(&mut self, row: usize, col: usize, value: T) where S: StorageMut<T, R, C>
        requires
            row < R,
            col < C,
        ensures
            final(self)@.element(row as int, col as int) == value,
            forall|i: int, j: int|
                #![trigger final(self)@.element(i, j)]
                0 <= i < R && 0 <= j < C && (i != row || j != col) ==> final(self)@.element(i, j)
                    == old(self)@.element(i, j),
    {
        let slot = self.storage.get_unchecked_mut(row, col);
        *slot = value;
    }

    /// The columns of the matrix, converted from its storage.
    pub fn into_col_arr(self) -> (r: [[T; R]; C]) where S: Into<[[T; R]; C]>
        ensures
            S::obeys_into_spec() ==> r == self@.into_spec(),
    {
        self.storage.into()
    }
}

impl<S: Clone, T, const R: usize, const C: usize> Clone for Matrix<S, T, R, C> {
    fn clone(&self) -> (r: Self)
        ensures
            cloned(self@, r@),
    {
        Self::from_storage(self.storage.clone())
    }
}

impl<S: Copy, T, const R: usize, const C: usize> Copy for Matrix<S, T, R, C> {}

impl<T: Zero, const R: usize, const C: usize> Zero for Matrix<Owned<T, R, C>, T, R, C> {
    /// The matrix whose every element is `T::zero()`.
    fn zero() -> (m: Self)
        ensures
            forall|i: int, j: int|
                #![trigger m@.element(i, j)]
                0 <= i < R && 0 <= j < C ==> call_ensures(T::zero, (), m@.element(i, j)),
    {
        let mut cols: Vec<[T; R]> = Vec::new();
        let mut c: usize = 0;
        while c < C
            invariant
                c <= C,
                cols@.len() == c,
                forall|j: int, i: int|
                    0 <= j < c && 0 <= i < R ==> call_ensures(T::zero, (), #[trigger] cols@[j]@[i]),
            decreases C - c,
        {
            let mut col: Vec<T> = Vec::new();
            let mut r: usize = 0;
            while r < R
                invariant
                    r <= R,
                    col@.len() == r,
                    forall|i: int| 0 <= i < r ==> call_ensures(T::zero, (), #[trigger] col@[i]),
                decreases R - r,
            {
                col.push(T::zero());
                r += 1;
            }
            cols.push(crate::math::storage::array_from_vec(col));
            c += 1;
        }
        Self::from_storage(ArrayStorage::from_columns(cols))
    }
}

impl<T: One, const R: usize, const C: usize> One for Matrix<Owned<T, R, C>, T, R, C> {
    /// The matrix whose every element is `T::one()`.
    fn one() -> (m: Self)
        ensures
            forall|i: int, j: int|
                #![trigger m@.element(i, j)]
                0 <= i < R && 0 <= j < C ==> call_ensures(T::one, (), m@.element(i, j)),
    {
        let mut cols: Vec<[T; R]> = Vec::new();
        let mut c: usize = 0;
        while c < C
            invariant
                c <= C,
                cols@.len() == c,
                forall|j: int, i: int|
                    0 <= j < c && 0 <= i < R ==> call_ensures(T::one, (), #[trigger] cols@[j]@[i]),
            decreases C - c,
        {
            let mut col: Vec<T> = Vec::new();
            let mut r: usize = 0;
            while r < R
                invariant
                    r <= R,
                    col@.len() == r,
                    forall|i: int| 0 <= i < r ==> call_ensures(T::one, (), #[trigger] col@[i]),
                decreases R - r,
            {
                col.push(T::one());
                r += 1;
            }
            cols.push(crate::math::storage::array_from_vec(col));
            c += 1;
        }
        Self::from_storage(ArrayStorage::from_columns(cols))
    }
}

impl<T: Default, const R: usize, const C: usize> Default for Matrix<Owned<T, R, C>, T, R, C> {
    /// The matrix whose every element is `T::default()`.
    fn default() -> (m: Self)
        ensures
            forall|i: int, j: int|
                #![trigger m@.element(i, j)]
                0 <= i < R && 0 <= j < C ==> call_ensures(T::default, (), m@.element(i, j)),
    {
        let mut cols: Vec<[T; R]> = Vec::new();
        let mut c: usize = 0;
        while c < C
            invariant
                c <= C,
                cols@.len() == c,
                forall|j: int, i: int|
                    0 <= j < c && 0 <= i < R ==> call_ensures(T::default, (), #[trigger] cols@[j]@[i]),
            decreases C - c,
        {
            let mut col: Vec<T> = Vec::new();
            let mut r: usize = 0;
            while r < R
                invariant
                    r <= R,
                    col@.len() == r,
                    forall|i: int| 0 <= i < r ==> call_ensures(T::default, (), #[trigger] col@[i]),
                decreases R - r,
            {
                col.push(T::default());
                r += 1;
            }
            cols.push(crate::math::storage::array_from_vec(col));
            c += 1;
        }
        Self::from_storage(ArrayStorage::from_columns(cols))
    }
}

/// A matrix holding the given columns.
impl<T, const R: usize, const C: usize> From<[[T; R]; C]> for Matrix<ArrayStorage<T, R, C>, T, R, C> {
    fn from(data: [[T; R]; C]) -> (m: Self) {
        Self::from_storage(ArrayStorage::from_data(data))
    }
}

impl<T, const R: usize, const C: usize> FromSpecImpl<[[T; R]; C]> for Matrix<ArrayStorage<T, R, C>, T, R, C> {
    open spec fn obeys_from_spec() -> bool {
        true
    }

    open spec fn from_spec(data: [[T; R]; C]) -> Self {
        Matrix::spec_with_storage(ArrayStorage::spec_from_data(data))
    }
}

} // verus!
