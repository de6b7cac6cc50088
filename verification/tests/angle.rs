use std::ops::{Div, Mul, Rem};

use vulkan_engine::math::angle::{Angle, AngleConst};

/// An `f32` that angles can be made of.
#[derive(Debug, Clone, Copy, PartialEq)]
struct F32(f32);

impl AngleConst for F32 {
    const PI_180: Self = F32(std::f32::consts::PI / 180.0);
    const TAU: Self = F32(std::f32::consts::TAU);
}

impl Mul for F32 {
    type Output = F32;
    fn mul(self, rhs: F32) -> F32 {
        F32(self.0 * rhs.0)
    }
}

impl Div for F32 {
    type Output = F32;
    fn div(self, rhs: F32) -> F32 {
        F32(self.0 / rhs.0)
    }
}

impl Rem for F32 {
    type Output = F32;
    fn rem(self, rhs: F32) -> F32 {
        F32(self.0 % rhs.0)
    }
}

fn assert_close(is: f32, should: f32, margin: f32) {
    assert!((is - should).abs() <= margin, "is: {} should: {} (+- {})", is, should, margin);
}

#[test]
fn angle_degrad() {
    assert_close(Angle::from_deg(F32(90.0)).to_rad().0, 1.570796, 1e-5);
}

#[test]
fn angle_rad_round_trip() {
    let a = Angle::from_rad(F32(std::f32::consts::PI));
    assert_close(a.to_deg().0, 180.0, 1e-3);
    assert_eq!(a.to_rad(), F32(std::f32::consts::PI));
}

#[test]
fn angle_clamped_to_one_turn() {
    let a = Angle::from_deg(F32(450.0));
    assert_close(a.to_deg_clamped().0, 90.0, 1e-3);
    assert_close(a.to_rad_clamped().0, std::f32::consts::FRAC_PI_2, 1e-5);
}

/// An angle unit of thousandths, in integers.
#[derive(Debug, Clone, Copy, PartialEq)]
struct Milli(i64);
impl AngleConst for Milli {
    const PI_180: Self = Milli(17);
    const TAU: Self = Milli(6283);
}
impl Mul for Milli {
    type Output = Milli;
    fn mul(self, rhs: Milli) -> Milli {
        Milli(self.0 * rhs.0)
    }
}
impl Div for Milli {
    type Output = Milli;
    fn div(self, rhs: Milli) -> Milli {
        Milli(self.0 / rhs.0)
    }
}
impl Rem for Milli {
    type Output = Milli;
    fn rem(self, rhs: Milli) -> Milli {
        Milli(self.0 % rhs.0)
    }
}

#[test]
fn angle_of_integers() {
    let a = Angle::from_deg(Milli(10));
    assert_eq!(a.to_rad(), Milli(170));
    assert_eq!(a.to_deg(), Milli(10));
    assert_eq!(Angle::from_rad(Milli(7000)).to_rad_clamped(), Milli(717));
}
