//! The renderer's bookkeeping: what a window is opened with, which device
//! and queue families are picked, and the instances of each model.
pub mod descriptor_manager;
pub mod device;
pub mod model;
pub mod subdivision;
pub mod surface;
pub mod swapchain;

use vstd::prelude::*;

verus! {

/// Why a renderer operation failed.
#[derive(Debug, PartialEq, Eq, Structural)]
pub enum RendererError {
    Unknown,
    NoSuitableGpu,
    NoSuitableQueueFamily,
    InvalidHandle,
}

/// The size and title of the window that the renderer opens.
#[derive(Debug, Clone, Copy, PartialEq)]
pub struct AppInfo {
    width: u32,
    height: u32,
    title: &'static str,
}

/// The window that the renderer opens unless told otherwise: 1920 by 1080,
/// titled "VulkanTriangle".
impl Default for AppInfo {
    fn default() -> (r: Self)
        ensures
            r@ == (1920u32, 1080u32, "VulkanTriangle"@),
    {
        AppInfo { width: 1920, height: 1080, title: "VulkanTriangle" }
    }
}

impl View for AppInfo {
    /// Width, height and title.
    type V = (u32, u32, Seq<char>);

    closed spec fn view(&self) -> Self::V {
        (self.width, self.height, self.title@)
    }
}

impl AppInfo {
    /// A window description of the given size and title.
    pub fn new(width: u32, height: u32, title: &'static str) -> (r: Self)
        ensures
            r@ == (width, height, title@),
    {
        AppInfo { width, height, title }
    }

    /// The width in logical pixels.
    pub fn width(&self) -> (r: u32)
        ensures
            r == self@.0,
    {
        self.width
    }

    /// The height in logical pixels.
    pub fn height(&self) -> (r: u32)
        ensures
            r == self@.1,
    {
        self.height
    }

    /// The window title.
    pub fn title(&self) -> (r: &'static str)
        ensures
            r@ == self@.2,
    {
        self.title
    }
}

} // verus!
