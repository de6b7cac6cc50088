//! Column vectors.
use vstd::prelude::*;

use crate::crystal::matrix::Matrix;
use crate::math::scalar::{One, Zero};

verus! {

/// An `R`-element column vector.
pub type ColVector<T, const R: usize> = Matrix<T, R, 1>;

pub type Vec2<T> = ColVector<T, 2>;

pub type Vec3<T> = ColVector<T, 3>;

pub type Vec4<T> = ColVector<T, 4>;

/// Type-level vector lengths, used to bound which components a vector has.
pub struct VecLen0 {}

pub struct VecLen1 {}

pub struct VecLen2 {}

pub struct VecLen3 {}

pub struct VecLen4 {}

pub struct Greater;

/// Compares the length of a vector type with a type-level length.
pub trait VecLenCmp<T> {
    type Cmp;
}

impl<T> VecLenCmp<VecLen0> for Vec2<T> {
    type Cmp = Greater;
}

impl<T> VecLenCmp<VecLen1> for Vec2<T> {
    type Cmp = Greater;
}

impl<T> VecLenCmp<VecLen0> for Vec3<T> {
    type Cmp = Greater;
}

impl<T> VecLenCmp<VecLen1> for Vec3<T> {
    type Cmp = Greater;
}

impl<T> VecLenCmp<VecLen2> for Vec3<T> {
    type Cmp = Greater;
}

impl<T> VecLenCmp<VecLen0> for Vec4<T> {
    type Cmp = Greater;
}

impl<T> VecLenCmp<VecLen1> for Vec4<T> {
    type Cmp = Greater;
}

impl<T> VecLenCmp<VecLen2> for Vec4<T> {
    type Cmp = Greater;
}

impl<T> VecLenCmp<VecLen3> for Vec4<T> {
    type Cmp = Greater;
}

/// The unit vector along axis `axis`: `T::one()` there, `T::zero()` elsewhere.
pub open spec fn is_unit_along<T: Zero + One, const R: usize>(v: ColVector<T, R>, axis: int) -> bool {
    forall|i: int|
        #![trigger v.element(i, 0)]
        0 <= i < R ==> if i == axis {
            call_ensures(T::one, (), v.element(i, 0))
        } else {
            call_ensures(T::zero, (), v.element(i, 0))
        }
}

impl<T, const R: usize> ColVector<T, R> {
    fn unit_along(axis: usize) -> (v: Self) where T: Zero + One
        requires
            axis < R,
        ensures
            is_unit_along(v, axis as int),
    {
        let mut zero = <Self as Zero>::zero();
        let one = T::one();
        zero.set_element(axis, 0, one);
        zero
    }

    /// The component in row `row`, to change in place.
    fn component_mut(&mut self, row: usize) -> (r: &mut T)
        requires
            row < R,
        ensures
            *r == old(self).element(row as int, 0),
            final(self).element(row as int, 0) == *final(r),
            forall|i: int, j: int|
                #![trigger final(self).element(i, j)]
                0 <= i < R && 0 <= j < 1 && i != row ==> final(self).element(i, j) == old(
                    self,
                ).element(i, j),
    {
        self.get_mut((row, 0)).unwrap()
    }

    pub fn unit_x() -> (v: Self) where Self: VecLenCmp<VecLen0, Cmp = Greater>, T: Clone + Zero + One
        requires
            0 < R,
        ensures
            is_unit_along(v, 0),
    {
        Self::unit_along(0)
    }

    pub fn unit_y() -> (v: Self) where Self: VecLenCmp<VecLen1, Cmp = Greater>, T: Clone + Zero + One
        requires
            1 < R,
        ensures
            is_unit_along(v, 1),
    {
        Self::unit_along(1)
    }

    pub fn unit_z() -> (v: Self) where Self: VecLenCmp<VecLen2, Cmp = Greater>, T: Clone + Zero + One
        requires
            2 < R,
        ensures
            is_unit_along(v, 2),
    {
        Self::unit_along(2)
    }

    pub fn unit_w() -> (v: Self) where Self: VecLenCmp<VecLen3, Cmp = Greater>, T: Clone + Zero + One
        requires
            3 < R,
        ensures
            is_unit_along(v, 3),
    {
        Self::unit_along(3)
    }

    pub fn x(&self) -> (r: &T) where Self: VecLenCmp<VecLen0, Cmp = Greater>
        requires
            0 < R,
        ensures
            *r == self.element(0, 0),
    {
        self.get((0, 0)).unwrap()
    }

    pub fn x_mut(&mut self) -> (r: &mut T) where Self: VecLenCmp<VecLen0, Cmp = Greater>
        requires
            0 < R,
        ensures
            *r == old(self).element(0, 0),
            final(self).element(0, 0) == *final(r),
            forall|i: int, j: int|
                #![trigger final(self).element(i, j)]
                0 <= i < R && 0 <= j < 1 && i != 0 ==> final(self).element(i, j) == old(
                    self,
                ).element(i, j),
    {
        self.component_mut(0)
    }

    pub fn y(&self) -> (r: &T) where Self: VecLenCmp<VecLen1, Cmp = Greater>
        requires
            1 < R,
        ensures
            *r == self.element(1, 0),
    {
        self.get((1, 0)).unwrap()
    }

    pub fn y_mut(&mut self) -> (r: &mut T) where Self: VecLenCmp<VecLen1, Cmp = Greater>
        requires
            1 < R,
        ensures
            *r == old(self).element(1, 0),
            final(self).element(1, 0) == *final(r),
            forall|i: int, j: int|
                #![trigger final(self).element(i, j)]
                0 <= i < R && 0 <= j < 1 && i != 1 ==> final(self).element(i, j) == old(
                    self,
                ).element(i, j),
    {
        self.component_mut(1)
    }

    pub fn z(&self) -> (r: &T) where Self: VecLenCmp<VecLen2, Cmp = Greater>
        requires
            2 < R,
        ensures
            *r == self.element(2, 0),
    {
        self.get((2, 0)).unwrap()
    }

    pub fn z_mut(&mut self) -> (r: &mut T) where Self: VecLenCmp<VecLen2, Cmp = Greater>
        requires
            2 < R,
        ensures
            *r == old(self).element(2, 0),
            final(self).element(2, 0) == *final(r),
            forall|i: int, j: int|
                #![trigger final(self).element(i, j)]
                0 <= i < R && 0 <= j < 1 && i != 2 ==> final(self).element(i, j) == old(
                    self,
                ).element(i, j),
    {
        self.component_mut(2)
    }

    pub fn w(&self) -> (r: &T) where Self: VecLenCmp<VecLen3, Cmp = Greater>
        requires
            3 < R,
        ensures
            *r == self.element(3, 0),
    {
        self.get((3, 0)).unwrap()
    }

    pub fn w_mut(&mut self) -> (r: &mut T) where Self: VecLenCmp<VecLen3, Cmp = Greater>
        requires
            3 < R,
        ensures
            *r == old(self).element(3, 0),
            final(self).element(3, 0) == *final(r),
            forall|i: int, j: int|
                #![trigger final(self).element(i, j)]
                0 <= i < R && 0 <= j < 1 && i != 3 ==> final(self).element(i, j) == old(
                    self,
                ).element(i, j),
    {
        self.component_mut(3)
    }
}

impl<T> Vec2<T> {
    pub fn new(x: T, y: T) -> (v: Self)
        ensures
            v.element(0, 0) == x,
            v.element(1, 0) == y,
    {
        Self::from_data([[x, y]])
    }
}

impl<T> Vec3<T> {
    pub fn new(x: T, y: T, z: T) -> (v: Self)
        ensures
            v.element(0, 0) == x,
            v.element(1, 0) == y,
            v.element(2, 0) == z,
    {
        Self::from_data([[x, y, z]])
    }
}

impl<T> Vec4<T> {
    pub fn new(x: T, y: T, z: T, w: T) -> (v: Self)
        ensures
            v.element(0, 0) == x,
            v.element(1, 0) == y,
            v.element(2, 0) == z,
            v.element(3, 0) == w,
    {
        Self::from_data([[x, y, z, w]])
    }
}

} // verus!
