use vulkan_engine::renderer::AppInfo;
use vulkan_engine::window::Window;

#[test]
fn cursor_follows_focus() {
    let mut w = Window::new();
    assert!(w.is_focused());
    assert!(w.on_start());
    assert_eq!(w.on_focus(false), Some(false));
    assert_eq!(w.on_focus(true), Some(true));
    assert!(!w.set_capture_cursor(false));
    assert_eq!(w.on_focus(true), None);
    assert_eq!(w.on_focus(false), Some(false));
    assert!(!w.on_start());
}

#[test]
fn default_window_info() {
    let info = AppInfo::default();
    assert_eq!((info.width(), info.height(), info.title()), (1920, 1080, "VulkanTriangle"));
    let small = AppInfo::new(640, 480, "small");
    assert_eq!((small.width(), small.height(), small.title()), (640, 480, "small"));
}
