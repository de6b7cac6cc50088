use vulkan_engine::crystal::norm::Normed;
use vulkan_engine::crystal::unit::Unit;
use vulkan_engine::math::scalar::Zero;

#[derive(Debug, Clone, Copy, PartialEq)]
struct Len(f32);

impl Zero for Len {
    fn zero() -> Self {
        Len(0.0)
    }
}

#[derive(Debug, Clone, Copy, PartialEq)]
struct V3([f32; 3]);

impl Normed for V3 {
    type Norm = Len;

    fn magnitude_value(&self) -> Len {
        self.magnitude()
    }

    fn magnitude_squared_value(&self) -> Len {
        self.magnitude_squared()
    }

    fn scaled(&self, n: Len) -> Self {
        let mut v = *self;
        v.scale_mut(n);
        v
    }

    fn unscaled(&self, n: Len) -> Self {
        let mut v = *self;
        v.unscale_mut(n);
        v
    }

    fn magnitude(&self) -> Len {
        Len(self.magnitude_squared().0.sqrt())
    }

    fn magnitude_squared(&self) -> Len {
        Len(self.0.iter().map(|x| x * x).sum())
    }

    fn scale_mut(&mut self, n: Len) {
        for x in self.0.iter_mut() {
            *x *= n.0;
        }
    }

    fn unscale_mut(&mut self, n: Len) {
        for x in self.0.iter_mut() {
            *x /= n.0;
        }
    }
}

#[test]
fn normalize_divides_by_the_magnitude() {
    let mut v = V3([3.0, 0.0, 4.0]);
    v.normalize();
    assert_eq!(v, V3([0.6, 0.0, 0.8]));
    let u = Unit::new_normalize(V3([0.0, 5.0, 0.0]));
    assert_eq!(u.into_inner(), V3([0.0, 1.0, 0.0]));
}

#[test]
fn normalize_keeps_a_zero_vector() {
    let mut v = V3([0.0, 0.0, 0.0]);
    v.normalize();
    assert_eq!(v, V3([0.0, 0.0, 0.0]));
}
