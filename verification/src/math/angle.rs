//! Angles, stored in radians.
use core::ops::{Div, Mul, Rem};
use vstd::prelude::*;
use vstd::std_specs::ops::{DivSpec, MulSpec, RemSpec};

verus! {

/// Conversion of a scalar into an angle.
pub trait IntoAngle: Sized {
    fn rad(self) -> Angle<Self>;

    fn deg(self) -> Angle<Self>;
}

/// The constants that angle conversion needs: pi / 180 and a full turn.
pub trait AngleConst {
    const PI_180: Self;
    const TAU: Self;
}

/// An angle; its model is its value in radians.
pub struct Angle<T> {
    radians: T,
}

impl<T> View for Angle<T> {
    type V = T;

    closed spec fn view(&self) -> T {
        self.radians
    }
}

impl<T: Clone> Clone for Angle<T> {
    fn clone(&self) -> (r: Self)
        ensures
            cloned(self@, r@),
    {
        Angle { radians: self.radians.clone() }
    }
}

impl<T: Copy> Copy for Angle<T> {}

impl<T> Angle<T> where
    T: Clone + AngleConst + Mul<T, Output = T> + Div<T, Output = T> + Rem<T, Output = T>,
 {
    pub fn from_rad(radians: T) -> (a: Self)
        ensures
            a@ == radians,
    {
        Self { radians }
    }

    pub fn from_deg(degree: T) -> (a: Self)
        requires
            degree.mul_req(T::PI_180),
        ensures
            T::obeys_mul_spec() ==> a@ == degree.mul_spec(T::PI_180),
    {
        Self::from_rad(degree * T::PI_180)
    }

    pub fn to_rad(&self) -> (r: T)
        ensures
            cloned(self@, r),
    {
        self.radians.clone()
    }

    pub fn to_deg(&self) -> (r: T)
        requires
            forall|c: T| #[trigger] cloned(self@, c) ==> c.div_req(T::PI_180),
        ensures
            exists|c: T|
                #[trigger] cloned(self@, c) && (T::obeys_div_spec() ==> r == c.div_spec(T::PI_180)),
    {
        let c = self.radians.clone();
        assert(cloned(self@, c));
        c / T::PI_180
    }

    pub fn to_rad_clamped(&self) -> (r: T)
        requires
            forall|c: T| #[trigger] cloned(self@, c) ==> c.rem_req(T::TAU),
        ensures
            exists|c: T|
                #[trigger] cloned(self@, c) && (T::obeys_rem_spec() ==> r == c.rem_spec(T::TAU)),
    {
        let c = self.radians.clone();
        assert(cloned(self@, c));
        c % T::TAU
    }

    pub fn to_deg_clamped(&self) -> (r: T)
        requires
            forall|c: T| #[trigger] cloned(self@, c) ==> c.rem_req(T::TAU),
            forall|x: T| #[trigger] x.div_req(T::PI_180),
        ensures
            (T::obeys_rem_spec() && T::obeys_div_spec()) ==> exists|c: T, d: T|
                #[trigger] cloned(self@, c) && #[trigger] cloned(c.rem_spec(T::TAU), d) && r
                    == d.div_spec(T::PI_180),
    {
        let clamped = self.to_rad_clamped();
        let r = Self::from_rad(clamped).to_deg();
        proof {
            if T::obeys_rem_spec() && T::obeys_div_spec() {
                let c = choose|c: T| #[trigger] cloned(self@, c) && clamped == c.rem_spec(T::TAU);
                let d = choose|d: T| #[trigger] cloned(clamped, d) && r == d.div_spec(T::PI_180);
                assert(cloned(self@, c) && cloned(c.rem_spec(T::TAU), d));
            }
        }
        r
    }
}

/// An angle made from a value in radians gives that value back from
/// `to_rad`: a clone of it, and so the value itself for every type whose
/// clone is the same value (such as the integers).
pub proof fn law_radians_round_trip<T: Clone>(x: T, a: Angle<T>, r: T)
    requires
        a@ == x,
        cloned(a@, r),
        forall|u: T, v: T| #[trigger] cloned(u, v) ==> u == v,
    ensures
        r == x,
{
}

/// An angle made from a value in degrees gives, from `to_rad`, that value
/// times `PI_180`, for every type whose product and clone follow their
/// specifications.
pub proof fn law_degrees_to_radians<T: Clone + AngleConst + Mul<T, Output = T>>(d: T, a: Angle<T>, r: T)
    requires
        T::obeys_mul_spec(),
        a@ == d.mul_spec(T::PI_180),
        cloned(a@, r),
        forall|u: T, v: T| #[trigger] cloned(u, v) ==> u == v,
    ensures
        r == d.mul_spec(T::PI_180),
{
}

} // verus!
