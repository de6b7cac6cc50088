use vulkan_engine::renderer::swapchain::swapchain_image_count;
use vulkan_engine::renderer::surface::{
    choose_format, choose_present_mode, SurfaceFormat, COLOR_SPACE_SRGB_NONLINEAR, FORMAT_B8G8R8A8_SRGB,
    FORMAT_R8G8B8A8_SRGB, PRESENT_MODE_FIFO, PRESENT_MODE_IMMEDIATE, PRESENT_MODE_MAILBOX,
};

#[test]
fn present_mode_preference() {
    assert_eq!(choose_present_mode(&vec![PRESENT_MODE_FIFO, PRESENT_MODE_IMMEDIATE, PRESENT_MODE_MAILBOX]), PRESENT_MODE_MAILBOX);
    assert_eq!(choose_present_mode(&vec![PRESENT_MODE_FIFO, PRESENT_MODE_IMMEDIATE]), PRESENT_MODE_IMMEDIATE);
    assert_eq!(choose_present_mode(&vec![PRESENT_MODE_FIFO]), PRESENT_MODE_FIFO);
    assert_eq!(choose_present_mode(&vec![]), PRESENT_MODE_FIFO);
}

#[test]
fn format_preference() {
    let linear = SurfaceFormat { format: 44, color_space: COLOR_SPACE_SRGB_NONLINEAR };
    let bgra = SurfaceFormat { format: FORMAT_B8G8R8A8_SRGB, color_space: COLOR_SPACE_SRGB_NONLINEAR };
    let rgba = SurfaceFormat { format: FORMAT_R8G8B8A8_SRGB, color_space: COLOR_SPACE_SRGB_NONLINEAR };
    let other_space = SurfaceFormat { format: FORMAT_B8G8R8A8_SRGB, color_space: 1000104002 };
    assert_eq!(choose_format(&vec![linear, rgba, bgra]), rgba);
    assert_eq!(choose_format(&vec![other_space, linear]), other_space);
    assert_eq!(choose_format(&vec![linear]), linear);
}

#[test]
fn swapchain_image_counts() {
    assert_eq!(swapchain_image_count(2, 8), 3);
    assert_eq!(swapchain_image_count(4, 8), 4);
    assert_eq!(swapchain_image_count(2, 2), 2);
    // Vulkan's "no maximum" is 0, and the minimum with it is taken as it stands
    assert_eq!(swapchain_image_count(2, 0), 0);
}
