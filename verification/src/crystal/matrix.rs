//! `R` x `C` matrices stored as an array of columns.
use vstd::prelude::*;
use vstd::std_specs::convert::FromSpecImpl;

use crate::math::scalar::{One, Scalar, Zero};

verus! {

/// An `R` x `C` matrix; its model is the sequence of its columns.
pub struct Matrix<T: Scalar, const R: usize, const C: usize> {
    pub(crate) data: [[T; R]; C],
}

impl<T, const R: usize, const C: usize> View for Matrix<T, R, C> {
    type V = Seq<Seq<T>>;

    closed spec fn view(&self) -> Seq<Seq<T>> {
        self.data@.map_values(|col: [T; R]| col@)
    }
}

impl<T, const R: usize, const C: usize> Matrix<T, R, C> {
    /// The element in row `row` and column `col`.
    pub open spec fn element(&self, row: int, col: int) -> T {
        self@[col][row]
    }

    /// The matrix with the given columns.
    pub closed spec fn spec_from_data(data: [[T; R]; C]) -> Self {
        Matrix { data }
    }

    pub fn from_data(data: [[T; R]; C]) -> (m: Self)
        ensures
            m == Self::spec_from_data(data),
            m.spec_data() == data,
            m@ == data@.map_values(|col: [T; R]| col@),
    {
        Self { data }
    }

    /// The columns of the matrix.
    pub closed spec fn spec_data(self) -> [[T; R]; C] {
        self.data
    }

    /// The matrix made from `data` holds `data`: its columns are `data`,
    /// and its view is `data` column by column.
    pub proof fn lemma_from_data(data: [[T; R]; C])
        ensures
            Self::spec_from_data(data).spec_data() == data,
            Self::spec_from_data(data)@ == data@.map_values(|col: [T; R]| col@),
    {
    }

    /// The columns of a matrix, taken column by column, are its view.
    pub proof fn lemma_data_is_view(self)
        ensures
            self.spec_data()@.map_values(|col: [T; R]| col@) == self@,
    {
    }

    pub(crate) fn into_data(self) -> (r: [[T; R]; C])
        ensures
            r == self.spec_data(),
    {
        self.data
    }

    pub fn shape(&self) -> (r: (usize, usize))
        ensures
            r == (R, C),
    {
        (R, C)
    }

    /// The element at `index`, given as (row, column).
    pub fn get(&self, index: (usize, usize)) -> (r: Option<&T>)
        ensures
            (index.0 < R && index.1 < C) ==> (r matches Some(v) && *v == self.element(
                index.0 as int,
                index.1 as int,
            )),
            !(index.0 < R && index.1 < C) ==> r is None,
    {
        let (row, col) = index;
        if row < R && col < C {
            Some(&self.data[col][row])
        } else {
            None
        }
    }

    /// The element at `index`, given as (row, column), to change in place.
    pub fn get_mut(&mut self, index: (usize, usize)) -> (r: Option<&mut T>)
        ensures
            (index.0 < R && index.1 < C) ==> (r matches Some(v) && *v == old(self).element(
                index.0 as int,
                index.1 as int,
            ) && final(self).element(index.0 as int, index.1 as int) == *final(v)),
            (index.0 < R && index.1 < C) ==> forall|i: int, j: int|
                #![trigger final(self).element(i, j)]
                0 <= i < R && 0 <= j < C && (i != index.0 || j != index.1)
                    ==> final(self).element(i, j) == old(self).element(i, j),
            !(index.0 < R && index.1 < C) ==> r is None && forall|i: int, j: int|
                #![trigger final(self).element(i, j)]
                final(self).element(i, j) == old(self).element(i, j),
    {
        let (row, col) = index;
        if row < R && col < C {
            Some(&mut self.data[col][row])
        } else {
            None
        }
    }

    /// Replaces one element of the matrix.
    pub(crate) fn set_element(&mut self, row: usize, col: usize, value: T)
        requires
            row < R,
            col < C,
        ensures
            final(self).element(row as int, col as int) == value,
            forall|i: int, j: int|
                #![trigger final(self).element(i, j)]
                0 <= i < R && 0 <= j < C && (i != row || j != col) ==> final(self).element(i, j)
                    == old(self).element(i, j),
    {
        self.data[col][row] = value;
    }

    /// The matrix holding the given columns.
    pub(crate) fn from_columns(cols: Vec<[T; R]>) -> (m: Self)
        requires
            cols@.len() == C,
        ensures
            forall|i: int, j: int|
                #![trigger m.element(i, j)]
                0 <= i < R && 0 <= j < C ==> m.element(i, j) == cols@[j]@[i],
    {
        let data: [[T; R]; C] = crate::math::storage::array_from_vec(cols);
        let m = Matrix { data };
        assert forall|i: int, j: int| 0 <= i < R && 0 <= j < C implies #[trigger] m.element(i, j)
            == cols@[j]@[i] by {
            assert(m@[j] == data@[j]@);
        }
        m
    }
}

impl<T: Clone, const R: usize, const C: usize> Clone for Matrix<T, R, C> {
    fn clone(&self) -> (r: Self)
        ensures
            forall|i: int, j: int|
                #![trigger r.element(i, j)]
                0 <= i < R && 0 <= j < C ==> cloned(self.element(i, j), r.element(i, j)),
    {
        let data = self.data.clone();
        let r = Self::from_data(data);
        assert forall|i: int, j: int| 0 <= i < R && 0 <= j < C implies #[trigger] cloned(
            self.element(i, j),
            r.element(i, j),
        ) by {
            assert(cloned(self.data@[j], data@[j]));
            assert(self@[j] == self.data@[j]@);
            assert(r@[j] == data@[j]@);
        }
        r
    }
}

impl<T: Copy, const R: usize, const C: usize> Copy for Matrix<T, R, C> {}

impl<T: Zero, const R: usize, const C: usize> Zero for Matrix<T, R, C> {
    /// The matrix whose every element is `T::zero()`.
    fn zero() -> (m: Self)
        ensures
            forall|i: int, j: int|
                #![trigger m.element(i, j)]
                0 <= i < R && 0 <= j < C ==> call_ensures(T::zero, (), m.element(i, j)),
    {
        let mut cols: Vec<[T; R]> = Vec::new();
        let mut c: usize = 0;
        while c < C
            invariant
                c <= C,
                cols@.len() == c,
                forall|j: int, i: int|
                    0 <= j < c && 0 <= i < R ==> call_ensures(T::zero, (), #[trigger] cols@[j]@[i]),
            decreases C - c,
        {
            let mut col: Vec<T> = Vec::new();
            let mut r: usize = 0;
            while r < R
                invariant
                    r <= R,
                    col@.len() == r,
                    forall|i: int| 0 <= i < r ==> call_ensures(T::zero, (), #[trigger] col@[i]),
                decreases R - r,
            {
                col.push(T::zero());
                r += 1;
            }
            cols.push(crate::math::storage::array_from_vec(col));
            c += 1;
        }
        Self::from_columns(cols)
    }
}

impl<T: One, const R: usize, const C: usize> One for Matrix<T, R, C> {
    /// The matrix whose every element is `T::one()`.
    fn one() -> (m: Self)
        ensures
            forall|i: int, j: int|
                #![trigger m.element(i, j)]
                0 <= i < R && 0 <= j < C ==> call_ensures(T::one, (), m.element(i, j)),
    {
        let mut cols: Vec<[T; R]> = Vec::new();
        let mut c: usize = 0;
        while c < C
            invariant
                c <= C,
                cols@.len() == c,
                forall|j: int, i: int|
                    0 <= j < c && 0 <= i < R ==> call_ensures(T::one, (), #[trigger] cols@[j]@[i]),
            decreases C - c,
        {
            let mut col: Vec<T> = Vec::new();
            let mut r: usize = 0;
            while r < R
                invariant
                    r <= R,
                    col@.len() == r,
                    forall|i: int| 0 <= i < r ==> call_ensures(T::one, (), #[trigger] col@[i]),
                decreases R - r,
            {
                col.push(T::one());
                r += 1;
            }
            cols.push(crate::math::storage::array_from_vec(col));
            c += 1;
        }
        Self::from_columns(cols)
    }
}

impl<T: Default, const R: usize, const C: usize> Default for Matrix<T, R, C> {
    /// The matrix whose every element is `T::default()`.
    fn default() -> (m: Self)
        ensures
            forall|i: int, j: int|
                #![trigger m.element(i, j)]
                0 <= i < R && 0 <= j < C ==> call_ensures(T::default, (), m.element(i, j)),
    {
        let mut cols: Vec<[T; R]> = Vec::new();
        let mut c: usize = 0;
        while c < C
            invariant
                c <= C,
                cols@.len() == c,
                forall|j: int, i: int|
                    0 <= j < c && 0 <= i < R ==> call_ensures(T::default, (), #[trigger] cols@[j]@[i]),
            decreases C - c,
        {
            let mut col: Vec<T> = Vec::new();
            let mut r: usize = 0;
            while r < R
                invariant
                    r <= R,
                    col@.len() == r,
                    forall|i: int| 0 <= i < r ==> call_ensures(T::default, (), #[trigger] col@[i]),
                decreases R - r,
            {
                col.push(T::default());
                r += 1;
            }
            cols.push(crate::math::storage::array_from_vec(col));
            c += 1;
        }
        Self::from_columns(cols)
    }
}

impl<T, const R: usize, const C: usize> From<[[T; R]; C]> for Matrix<T, R, C> {
    fn from(data: [[T; R]; C]) -> (m: Self) {
        Self::from_data(data)
    }
}

impl<T, const R: usize, const C: usize> FromSpecImpl<[[T; R]; C]> for Matrix<T, R, C> {
    open spec fn obeys_from_spec() -> bool {
        true
    }

    open spec fn from_spec(data: [[T; R]; C]) -> Self {
        Self::spec_from_data(data)
    }
}

impl<T, const R: usize> From<[T; R]> for Matrix<T, R, 1> {
    fn from(data: [T; R]) -> (m: Self) {
        Self::from_data([data])
    }
}

impl<T, const R: usize> FromSpecImpl<[T; R]> for Matrix<T, R, 1> {
    open spec fn obeys_from_spec() -> bool {
        true
    }

    open spec fn from_spec(data: [T; R]) -> Self {
        Self::spec_from_data([data])
    }
}

impl<T, const R: usize, const C: usize> From<Matrix<T, R, C>> for [[T; R]; C] {
    fn from(value: Matrix<T, R, C>) -> (r: Self) {
        value.into_data()
    }
}

impl<T, const R: usize, const C: usize> FromSpecImpl<Matrix<T, R, C>> for [[T; R]; C] {
    open spec fn obeys_from_spec() -> bool {
        true
    }

    open spec fn from_spec(value: Matrix<T, R, C>) -> Self {
        value.spec_data()
    }
}

} // verus!
