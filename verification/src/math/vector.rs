//! Column vectors.
use vstd::prelude::*;

use crate::math::matrix::{Matrix, Owned};
use crate::math::scalar::{One, Zero};
use crate::math::storage::{ArrayStorage, Storage, StorageMut};

verus! {

/// An `R`-element column vector.
pub type ColVector<S, T, const R: usize> = Matrix<S, T, R, 1>;

pub type Vec2<T, S = Owned<T, 2, 1>> = ColVector<S, T, 2>;

pub type Vec3<T, S = Owned<T, 3, 1>> = ColVector<S, T, 3>;

pub type Vec4<T, S = Owned<T, 4, 1>> = ColVector<S, T, 4>;

/// Type-level vector lengths, used to bound which components a vector has.
pub struct VecLen0 {}

pub struct VecLen1 {}

pub struct VecLen2 {}

pub struct VecLen3 {}

pub struct VecLen4 {}

pub struct Greater;

/// Compares the length of a vector type with a type-level length.
pub trait VecLenCmp<T> {
    type Cmp;
}

impl<T, S> VecLenCmp<VecLen0> for Vec2<T, S> {
    type Cmp = Greater;
}

impl<T, S> VecLenCmp<VecLen1> for Vec2<T, S> {
    type Cmp = Greater;
}

impl<T, S> VecLenCmp<VecLen0> for Vec3<T, S> {
    type Cmp = Greater;
}

impl<T, S> VecLenCmp<VecLen1> for Vec3<T, S> {
    type Cmp = Greater;
}

impl<T, S> VecLenCmp<VecLen2> for Vec3<T, S> {
    type Cmp = Greater;
}

impl<T, S> VecLenCmp<VecLen0> for Vec4<T, S> {
    type Cmp = Greater;
}

impl<T, S> VecLenCmp<VecLen1> for Vec4<T, S> {
    type Cmp = Greater;
}

impl<T, S> VecLenCmp<VecLen2> for Vec4<T, S> {
    type Cmp = Greater;
}

impl<T, S> VecLenCmp<VecLen3> for Vec4<T, S> {
    type Cmp = Greater;
}

/// The unit vector along axis `axis`: `T::one()` there, `T::zero()` elsewhere.
pub open spec fn is_unit_along<T: Zero + One, const R: usize>(
    v: ColVector<Owned<T, R, 1>, T, R>,
    axis: int,
) -> bool {
    forall|i: int|
        #![trigger v@.element(i, 0)]
        0 <= i < R ==> if i == axis {
            call_ensures(T::one, (), v@.element(i, 0))
        } else {
            call_ensures(T::zero, (), v@.element(i, 0))
        }
}

impl<T, const R: usize> ColVector<Owned<T, R, 1>, T, R> {
    fn unit_along(axis: usize) -> (v: Self) where T: Zero + One
        requires
            axis < R,
        ensures
            is_unit_along(v, axis as int),
    {
        let mut zero = <Self as Zero>::zero();
        let one = T::one();
        zero.set_element(axis, 0, one);
        zero
    }

    pub fn unit_x() -> (v: Self) where
        Self: VecLenCmp<VecLen0, Cmp = Greater>,
        T: Clone + Zero + One + core::ops::Mul<T, Output = T>,
        requires
            0 < R,
        ensures
            is_unit_along(v, 0),
    {
        Self::unit_along(0)
    }

    pub fn unit_y() -> (v: Self) where
        Self: VecLenCmp<VecLen1, Cmp = Greater>,
        T: Clone + Zero + One + core::ops::Mul<T, Output = T>,
        requires
            1 < R,
        ensures
            is_unit_along(v, 1),
    {
        Self::unit_along(1)
    }

    pub fn unit_z() -> (v: Self) where
        Self: VecLenCmp<VecLen2, Cmp = Greater>,
        T: Clone + Zero + One + core::ops::Mul<T, Output = T>,
        requires
            2 < R,
        ensures
            is_unit_along(v, 2),
    {
        Self::unit_along(2)
    }

    pub fn unit_w() -> (v: Self) where
        Self: VecLenCmp<VecLen3, Cmp = Greater>,
        T: Clone + Zero + One + core::ops::Mul<T, Output = T>,
        requires
            3 < R,
        ensures
            is_unit_along(v, 3),
    {
        Self::unit_along(3)
    }
}

impl<T, S, const R: usize> ColVector<S, T, R> where S: Storage<T, R, 1> {
    pub fn x(&self) -> (r: &T) where Self: VecLenCmp<VecLen0, Cmp = Greater>
        requires
            0 < R,
        ensures
            *r == self@.element(0, 0),
    {
        self.storage().get_unchecked(0, 0)
    }

    pub fn y(&self) -> (r: &T) where Self: VecLenCmp<VecLen1, Cmp = Greater>
        requires
            1 < R,
        ensures
            *r == self@.element(1, 0),
    {
        self.storage().get_unchecked(1, 0)
    }

    pub fn z(&self) -> (r: &T) where Self: VecLenCmp<VecLen2, Cmp = Greater>
        requires
            2 < R,
        ensures
            *r == self@.element(2, 0),
    {
        self.storage().get_unchecked(2, 0)
    }

    pub fn w(&self) -> (r: &T) where Self: VecLenCmp<VecLen3, Cmp = Greater>
        requires
            3 < R,
        ensures
            *r == self@.element(3, 0),
    {
        self.storage().get_unchecked(3, 0)
    }
}

impl<T> Vec3<T> {
    pub fn new(x: T, y: T, z: T) -> (v: Self)
        ensures
            v@.element(0, 0) == x,
            v@.element(1, 0) == y,
            v@.element(2, 0) == z,
    {
        Self::from_storage(ArrayStorage::from_data([[x, y, z]]))
    }
}

impl<T> Vec4<T> {
    pub fn new(x: T, y: T, z: T, w: T) -> (v: Self)
        ensures
            v@.element(0, 0) == x,
            v@.element(1, 0) == y,
            v@.element(2, 0) == z,
            v@.element(3, 0) == w,
    {
        Self::from_storage(ArrayStorage::from_data([[x, y, z, w]]))
    }
}

} // verus!
