use vulkan_engine::renderer::device::{
    device_score, init_physical_device, DeviceInfo, QueueFamilies, QueueFamilyError, QueueFamilyInfo,
};
use vulkan_engine::renderer::RendererError;

fn dev(discrete: bool, dim: u32, geometry: bool) -> DeviceInfo {
    DeviceInfo { is_discrete_gpu: discrete, max_image_dimension_2d: dim, has_geometry_shader: geometry }
}

#[test]
fn device_scores() {
    assert_eq!(device_score(&dev(true, 16384, true)), 17384);
    assert_eq!(device_score(&dev(false, 8192, true)), 8192);
    assert_eq!(device_score(&dev(true, 16384, false)), 0);
}

#[test]
fn no_device_is_no_suitable_gpu() {
    assert_eq!(init_physical_device(&vec![]), Err(RendererError::NoSuitableGpu));
}

#[test]
fn the_highest_score_is_taken_and_the_last_of_equal_ones() {
    let devices = vec![dev(false, 4096, true), dev(true, 16384, true), dev(false, 4096, true)];
    assert_eq!(init_physical_device(&devices), Ok(1));
    let devices = vec![dev(true, 16384, false), dev(false, 4096, true)];
    assert_eq!(init_physical_device(&devices), Ok(1));
    let devices = vec![dev(false, 8192, true), dev(false, 8192, true)];
    assert_eq!(init_physical_device(&devices), Ok(1));
}

fn fam(count: u32, graphics: bool) -> QueueFamilyInfo {
    QueueFamilyInfo { queue_count: count, supports_graphics: graphics }
}

#[test]
fn queue_families_found_in_one_family() {
    let families = vec![fam(0, true), fam(4, true)];
    let q = QueueFamilies::init(&families, |_i: usize| Ok::<bool, ()>(true)).unwrap();
    assert_eq!(q, QueueFamilies { graphics_q_index: 1, present_q_index: 1 });
}

#[test]
fn queue_families_found_in_two_families() {
    let families = vec![fam(1, true), fam(1, false), fam(1, true)];
    let q = QueueFamilies::init(&families, |i: usize| Ok::<bool, ()>(i == 1)).unwrap();
    assert_eq!(q, QueueFamilies { graphics_q_index: 0, present_q_index: 1 });
}

#[test]
fn queue_families_missing() {
    let families = vec![fam(1, false), fam(1, false)];
    let r = QueueFamilies::init(&families, |_i: usize| Ok::<bool, ()>(true));
    assert_eq!(r, Err(QueueFamilyError::NoSuitableQueueFamily));
    let families = vec![fam(1, true)];
    let r = QueueFamilies::init(&families, |_i: usize| Ok::<bool, ()>(false));
    assert_eq!(r, Err(QueueFamilyError::NoSuitableQueueFamily));
}

#[test]
fn queue_family_surface_error_is_passed_on() {
    let families = vec![fam(1, true)];
    let r = QueueFamilies::init(&families, |_i: usize| Err::<bool, &str>("lost"));
    assert_eq!(r, Err(QueueFamilyError::Surface("lost")));
}
