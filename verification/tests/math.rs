use vulkan_engine::math::storage::{Allocator, ArrayStorage, DefaultAllocator};
use vulkan_engine::math::mat3::Mat3;
use vulkan_engine::math::matn::MatN;
use vulkan_engine::math::matrix::Owned;
use vulkan_engine::math::vector::{Vec3, Vec4};

#[test]
fn vectors_hold_their_components() {
    let v = Vec3::new(1, 2, 3);
    assert_eq!((*v.x(), *v.y(), *v.z()), (1, 2, 3));
    let w = Vec4::new(4i64, 5, 6, 7);
    assert_eq!(*w.w(), 7);
    assert_eq!(v.shape(), (3, 1));
}

#[test]
fn unit_vectors() {
    let x: Vec3<u8> = Vec3::unit_x();
    let z: Vec3<u8> = Vec3::unit_z();
    assert_eq!((*x.x(), *x.y(), *x.z()), (1, 0, 0));
    assert_eq!((*z.x(), *z.y(), *z.z()), (0, 0, 1));
}

#[test]
fn identity_matrix() {
    let m: MatN<i32, Owned<i32, 3, 3>, 3> = MatN::identity();
    assert_eq!(m.into_col_arr(), [[1, 0, 0], [0, 1, 0], [0, 0, 1]]);
}

#[test]
fn mat3_new_is_row_major() {
    let m: Mat3<i32> = Mat3::new(1, 2, 3, 4, 5, 6, 7, 8, 9);
    // columns come out: the first column is 1, 4, 7
    assert_eq!(m.into_col_arr(), [[1, 4, 7], [2, 5, 8], [3, 6, 9]]);
}

#[test]
fn storage_elements_by_position() {
    let mut s: ArrayStorage<i32, 2, 3> = <DefaultAllocator as Allocator<i32, 2, 3>>::allocate_from_iter(vec![1, 2, 3, 4, 5, 6]);
    for n in 0..6 {
        if let Some(x) = s.nth_mut(n) {
            *x *= 10;
        }
    }
    assert!(s.nth_mut(6).is_none());
    *s.nth_mut(3).unwrap() = 0;
    let cols: [[i32; 2]; 3] = s.into();
    assert_eq!(cols, [[10, 20], [30, 0], [50, 60]]);
}
