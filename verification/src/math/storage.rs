//! Storage of the elements of a matrix, column by column.
use vstd::prelude::*;
use vstd::std_specs::convert::FromSpecImpl;
use vstd::arithmetic::mul::{lemma_mul_inequality, lemma_mul_is_distributive_add_other_way};

verus! {

/// Read access to the elements of an `R` x `C` matrix.
pub trait Storage<T, const R: usize, const C: usize> {
    /// The element in row `row` and column `col`.
    spec fn element(&self, row: int, col: int) -> T;

    fn get(&self, row_idx: usize, col_idx: usize) -> (r: Option<&T>)
        ensures
            (row_idx < R && col_idx < C) ==> (r matches Some(v) && *v == self.element(
                row_idx as int,
                col_idx as int,
            )),
            !(row_idx < R && col_idx < C) ==> r is None,
    ;

    fn get_unchecked(&self, row_idx: usize, col_idx: usize) -> (r: &T)
        requires
            row_idx < R,
            col_idx < C,
        ensures
            *r == self.element(row_idx as int, col_idx as int),
    ;

    fn strides(&self) -> (r: (usize, usize))
        ensures
            r == (R, C),
    {
        (R, C)
    }
}

/// Write access to the elements of an `R` x `C` matrix.
pub trait StorageMut<T, const R: usize, const C: usize>: Storage<T, R, C> {
    fn get_mut(&mut self, row_idx: usize, col_idx: usize) -> (r: Option<&mut T>)
        ensures
            (row_idx < R && col_idx < C) ==> (r matches Some(v) && *v == old(self).element(
                row_idx as int,
                col_idx as int,
            ) && final(self).element(row_idx as int, col_idx as int) == *final(v)),
            (row_idx < R && col_idx < C) ==> forall|i: int, j: int|
                #![trigger final(self).element(i, j)]
                0 <= i < R && 0 <= j < C && (i != row_idx || j != col_idx) ==> final(self).element(
                    i,
                    j,
                ) == old(self).element(i, j),
            !(row_idx < R && col_idx < C) ==> r is None && forall|i: int, j: int|
                #![trigger final(self).element(i, j)]
                final(self).element(i, j) == old(self).element(i, j),
    ;

    fn get_unchecked_mut(&mut self, row_idx: usize, col_idx: usize) -> (r: &mut T)
        requires
            row_idx < R,
            col_idx < C,
        ensures
            *r == old(self).element(row_idx as int, col_idx as int),
            final(self).element(row_idx as int, col_idx as int) == *final(r),
            forall|i: int, j: int|
                #![trigger final(self).element(i, j)]
                0 <= i < R && 0 <= j < C && (i != row_idx || j != col_idx) ==> final(self).element(
                    i,
                    j,
                ) == old(self).element(i, j),
    ;
}

/// Elements held in an array of columns.
pub struct ArrayStorage<T, const R: usize, const C: usize> {
    pub(crate) data: [[T; R]; C],
}

impl<T, const R: usize, const C: usize> View for ArrayStorage<T, R, C> {
    type V = Seq<Seq<T>>;

    /// The columns, each as the sequence of its elements.
    closed spec fn view(&self) -> Seq<Seq<T>> {
        self.data@.map_values(|col: [T; R]| col@)
    }
}

impl<T, const R: usize, const C: usize> ArrayStorage<T, R, C> {
    /// Storage holding the given columns.
    pub closed spec fn spec_from_data(data: [[T; R]; C]) -> Self {
        ArrayStorage { data }
    }

    pub(crate) fn from_data(data: [[T; R]; C]) -> (r: Self)
        ensures
            r == Self::spec_from_data(data),
            r.spec_data() == data,
            r@ == data@.map_values(|col: [T; R]| col@),
    {
        ArrayStorage { data }
    }

    /// Storage holding the given columns.
    pub(crate) fn from_columns(cols: Vec<[T; R]>) -> (r: Self)
        requires
            cols@.len() == C,
        ensures
            forall|i: int, j: int|
                #![trigger r.element(i, j)]
                0 <= i < R && 0 <= j < C ==> r.element(i, j) == cols@[j]@[i],
    {
        let data: [[T; R]; C] = array_from_vec(cols);
        let r = ArrayStorage { data };
        assert forall|i: int, j: int| 0 <= i < R && 0 <= j < C implies #[trigger] r.element(i, j)
            == cols@[j]@[i] by {
            assert(r@[j] == data@[j]@);
        }
        r
    }
}

impl<T, const R: usize, const C: usize> ArrayStorage<T, R, C> {
    /// The columns.
    pub closed spec fn spec_data(self) -> [[T; R]; C] {
        self.data
    }

    /// The first column.
    pub closed spec fn spec_first_column(self) -> [T; R] {
        self.data@[0]
    }

    /// Storage made from `data` holds `data`: its columns are `data`, and
    /// its view is `data` column by column.
    pub proof fn lemma_from_data(data: [[T; R]; C])
        ensures
            Self::spec_from_data(data).spec_data() == data,
            Self::spec_from_data(data)@ == data@.map_values(|col: [T; R]| col@),
    {
    }

    /// The columns of a storage, taken column by column, are its view, and
    /// its first column is the first of them.
    pub proof fn lemma_data_is_view(self)
        ensures
            self.spec_data()@.map_values(|col: [T; R]| col@) == self@,
            self.spec_first_column() == self.spec_data()@[0],
    {
    }
}

/// The columns of an array storage.
impl<T, const R: usize, const C: usize> From<ArrayStorage<T, R, C>> for [[T; R]; C] {
    fn from(value: ArrayStorage<T, R, C>) -> (r: Self) {
        value.data
    }
}

impl<T, const R: usize, const C: usize> FromSpecImpl<ArrayStorage<T, R, C>> for [[T; R]; C] {
    open spec fn obeys_from_spec() -> bool {
        true
    }

    open spec fn from_spec(v: ArrayStorage<T, R, C>) -> Self {
        v.spec_data()
    }
}

/// The single column of a one-column array storage.
impl<T: Copy, const R: usize> From<ArrayStorage<T, R, 1>> for [T; R] {
    fn from(value: ArrayStorage<T, R, 1>) -> (r: Self) {
        value.data[0]
    }
}

impl<T: Copy, const R: usize> FromSpecImpl<ArrayStorage<T, R, 1>> for [T; R] {
    open spec fn obeys_from_spec() -> bool {
        true
    }

    open spec fn from_spec(v: ArrayStorage<T, R, 1>) -> Self {
        v.spec_first_column()
    }
}

impl<T, const R: usize, const C: usize> Storage<T, R, C> for ArrayStorage<T, R, C> {
    open spec fn element(&self, row: int, col: int) -> T {
        self@[col][row]
    }

    fn get(&self, row_idx: usize, col_idx: usize) -> (r: Option<&T>) {
        if col_idx < C && row_idx < R {
            Some(&self.data[col_idx][row_idx])
        } else {
            None
        }
    }

    fn get_unchecked(&self, row_idx: usize, col_idx: usize) -> (r: &T) {
        &self.data[col_idx][row_idx]
    }
}

impl<T, const R: usize, const C: usize> StorageMut<T, R, C> for ArrayStorage<T, R, C> {
    fn get_mut(&mut self, row_idx: usize, col_idx: usize) -> (r: Option<&mut T>) {
        if col_idx < C && row_idx < R {
            Some(&mut self.data[col_idx][row_idx])
        } else {
            None
        }
    }

    fn get_unchecked_mut(&mut self, row_idx: usize, col_idx: usize) -> (r: &mut T) {
        &mut self.data[col_idx][row_idx]
    }
}

impl<T, const R: usize, const C: usize> ArrayStorage<T, R, C> {
    /// The `n`-th element in column-major order (the order in which the
    /// columns, and within each column the rows, are walked), to change in
    /// place; `None` past the last element.
    pub fn nth_mut(&mut self, n: usize) -> (r: Option<&mut T>)
        ensures
            n < R * C ==> (r matches Some(v) && *v == old(self).element(
                n as int % R as int,
                n as int / R as int,
            ) && final(self).element(n as int % R as int, n as int / R as int) == *final(v)),
            n < R * C ==> forall|i: int, j: int|
                #![trigger final(self).element(i, j)]
                0 <= i < R && 0 <= j < C && (i != n as int % R as int || j != n as int / R as int)
                    ==> final(self).element(i, j) == old(self).element(i, j),
            n >= R * C ==> r is None && forall|i: int, j: int|
                #![trigger final(self).element(i, j)]
                final(self).element(i, j) == old(self).element(i, j),
    {
        if R == 0 {
            assert(R * C == 0);
            return None;
        }
        let col = n / R;
        let row = n % R;
        proof {
            assert(n == R * col + row) by (nonlinear_arith)
                requires
                    R > 0,
                    col == n / R,
                    row == n % R,
            ;
            if col < C {
                assert(R * col + row < R * C) by (nonlinear_arith)
                    requires
                        col < C,
                        row < R,
                ;
            } else {
                assert(R * col >= R * C) by (nonlinear_arith)
                    requires
                        col >= C,
                ;
            }
        }
        self.get_mut(row, col)
    }
}

/// Storage that `Matrix` values of a given shape own.
pub type DefaultStorage<T, const R: usize, const C: usize> = ArrayStorage<T, R, C>;

/// Makes new storage for `R` x `C` matrices.
pub trait Allocator<T, const R: usize, const C: usize> {
    type Buffer: StorageMut<T, R, C>;

    /// Storage filled column by column from the first `R * C` of `items`
    /// (the rest are dropped).
    fn allocate_from_iter(items: Vec<T>) -> (r: Self::Buffer)
        requires
            items@.len() >= R * C,
        ensures
            forall|i: int, j: int|
                #![trigger r.element(i, j)]
                0 <= i < R && 0 <= j < C ==> r.element(i, j) == items@[j * R + i],
    ;
}

/// The allocator of `ArrayStorage`.
pub struct DefaultAllocator;

/// Calls `<[T; N]>::try_from` on a vector: std documents that it gives the
/// vector's contents as an array when the length is exactly `N`.
#[verifier::external_body]
pub(crate) fn array_from_vec<T, const N: usize>(v: Vec<T>) -> (r: [T; N])
    requires
        v@.len() == N,
    ensures
        r@ == v@,
{
    <[T; N]>::try_from(v).ok().unwrap()
}

impl<T, const R: usize, const C: usize> Allocator<T, R, C> for DefaultAllocator {
    type Buffer = ArrayStorage<T, R, C>;

    fn allocate_from_iter(items: Vec<T>) -> (r: ArrayStorage<T, R, C>) {
        let ghost all = items@;
        let mut items = items;
        proof {
            lemma_mul_inequality(0, C as int, R as int);
        }
        assert(R * C <= items.len());
        let total = R * C;
        items.truncate(total);
        let mut cols: Vec<[T; R]> = Vec::new();
        let mut c: usize = C;
        while c > 0
            invariant
                c <= C,
                total == R * C,
                all.len() >= R * C,
                items@ == all.subrange(0, c * R),
                cols@.len() == C - c,
                forall|j: int, i: int|
                    0 <= j < C - c && 0 <= i < R ==> #[trigger] cols@[j]@[i] == all[(c + j) * R
                        + i],
            decreases c,
        {
            proof {
                lemma_mul_inequality(c - 1, c as int, R as int);
                lemma_mul_is_distributive_add_other_way(R as int, c - 1, 1);
                lemma_mul_inequality(c as int, C as int, R as int);
            }
            let start = (c - 1) * R;
            let col_items = items.split_off(start);
            let col: [T; R] = array_from_vec(col_items);
            let ghost old_cols = cols@;
            cols.insert(0, col);
            assert forall|j: int, i: int|
                0 <= j < C - (c - 1) && 0 <= i < R implies #[trigger] cols@[j]@[i] == all[(
                (c - 1) + j) * R + i] by {
                if j == 0 {
                    assert(cols@[0]@[i] == all[start + i]);
                } else {
                    assert(cols@[j] == old_cols[j - 1]);
                    assert((c - 1) + j == c + (j - 1));
                }
            }
            c -= 1;
        }
        let data: [[T; R]; C] = array_from_vec(cols);
        let r = ArrayStorage { data };
        assert forall|i: int, j: int|
            0 <= i < R && 0 <= j < C implies #[trigger] r.element(i, j) == all[j * R + i] by {
            assert(r@[j] == data@[j]@);
        }
        r
    }
}

} // verus!
