//! Traits for the scalars that matrices hold.
use vstd::prelude::*;

verus! {

/// Types with an additive identity.
pub trait Zero: Sized {
    fn zero() -> Self;
}

/// Types with a multiplicative identity.
pub trait One: Sized {
    fn one() -> Self;
}

/// Types with a sine.
pub trait Sin {
    type Output;

    fn sin(&self) -> Self::Output;
}

/// Types with a cosine.
pub trait Cos {
    type Output;

    fn cos(&self) -> Self::Output;
}

/// Marker for the element types of matrices; every type is one.
pub trait Scalar {}

impl<T> Scalar for T {}

impl Zero for u8 { fn zero() -> (r: Self) ensures r == 0 { 0 } }
impl Zero for u16 { fn zero() -> (r: Self) ensures r == 0 { 0 } }
impl Zero for u32 { fn zero() -> (r: Self) ensures r == 0 { 0 } }
impl Zero for u64 { fn zero() -> (r: Self) ensures r == 0 { 0 } }
impl Zero for u128 { fn zero() -> (r: Self) ensures r == 0 { 0 } }
impl Zero for usize { fn zero() -> (r: Self) ensures r == 0 { 0 } }
impl Zero for i8 { fn zero() -> (r: Self) ensures r == 0 { 0 } }
impl Zero for i16 { fn zero() -> (r: Self) ensures r == 0 { 0 } }
impl Zero for i32 { fn zero() -> (r: Self) ensures r == 0 { 0 } }
impl Zero for i64 { fn zero() -> (r: Self) ensures r == 0 { 0 } }
impl Zero for i128 { fn zero() -> (r: Self) ensures r == 0 { 0 } }
impl Zero for isize { fn zero() -> (r: Self) ensures r == 0 { 0 } }

impl One for u8 { fn one() -> (r: Self) ensures r == 1 { 1 } }
impl One for u16 { fn one() -> (r: Self) ensures r == 1 { 1 } }
impl One for u32 { fn one() -> (r: Self) ensures r == 1 { 1 } }
impl One for u64 { fn one() -> (r: Self) ensures r == 1 { 1 } }
impl One for u128 { fn one() -> (r: Self) ensures r == 1 { 1 } }
impl One for usize { fn one() -> (r: Self) ensures r == 1 { 1 } }
impl One for i8 { fn one() -> (r: Self) ensures r == 1 { 1 } }
impl One for i16 { fn one() -> (r: Self) ensures r == 1 { 1 } }
impl One for i32 { fn one() -> (r: Self) ensures r == 1 { 1 } }
impl One for i64 { fn one() -> (r: Self) ensures r == 1 { 1 } }
impl One for i128 { fn one() -> (r: Self) ensures r == 1 { 1 } }
impl One for isize { fn one() -> (r: Self) ensures r == 1 { 1 } }

} // verus!
