//! How many images the swapchain asks for.
use vstd::prelude::*;

verus! {

/// The number of swapchain images to ask for: at least 3 and at least the
/// surface's minimum, but no more than its maximum. (A maximum of 0, which
/// Vulkan uses for "no limit", gives 0.)
pub fn swapchain_image_count(min_image_count: u32, max_image_count: u32) -> (r: u32)
    ensures
        r == if max_image_count < (if min_image_count > 3 { min_image_count } else { 3 }) {
            max_image_count
        } else if min_image_count > 3 {
            min_image_count
        } else {
            3
        },
{
    let at_least = if min_image_count > 3 { min_image_count } else { 3 };
    if max_image_count < at_least {
        max_image_count
    } else {
        at_least
    }
}

} // verus!
