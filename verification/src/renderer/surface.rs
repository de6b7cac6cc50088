//! Choosing how the swapchain presents and what pixel format it uses, from
//! what the surface offers. Modes, formats and color spaces are Vulkan's
//! numeric codes.
use vstd::prelude::*;

verus! {

/// Vulkan's code for presenting at once, without waiting for a vertical blank.
pub const PRESENT_MODE_IMMEDIATE: i32 = 0;

/// Vulkan's code for presenting the newest image at each vertical blank.
pub const PRESENT_MODE_MAILBOX: i32 = 1;

/// Vulkan's code for presenting images in order, one per vertical blank.
pub const PRESENT_MODE_FIFO: i32 = 2;

/// Vulkan's code for the 8-bit BGRA sRGB format.
pub const FORMAT_B8G8R8A8_SRGB: i32 = 50;

/// Vulkan's code for the 8-bit RGBA sRGB format.
pub const FORMAT_R8G8B8A8_SRGB: i32 = 43;

/// Vulkan's code for the non-linear sRGB color space.
pub const COLOR_SPACE_SRGB_NONLINEAR: i32 = 0;

/// A format that a surface offers, with its color space.
#[derive(Debug, Clone, Copy, PartialEq, Eq, Structural)]
pub struct SurfaceFormat {
    pub format: i32,
    pub color_space: i32,
}

/// The present mode to use: mailbox if offered, else immediate if offered,
/// else FIFO (which every surface offers).
pub fn choose_present_mode(present_modes: &Vec<i32>) -> (r: i32)
    ensures
        r == if present_modes@.contains(PRESENT_MODE_MAILBOX) {
            PRESENT_MODE_MAILBOX
        } else if present_modes@.contains(PRESENT_MODE_IMMEDIATE) {
            PRESENT_MODE_IMMEDIATE
        } else {
            PRESENT_MODE_FIFO
        },
{
    if contains_mode(present_modes, PRESENT_MODE_MAILBOX) {
        PRESENT_MODE_MAILBOX
    } else if contains_mode(present_modes, PRESENT_MODE_IMMEDIATE) {
        PRESENT_MODE_IMMEDIATE
    } else {
        PRESENT_MODE_FIFO
    }
}

fn contains_mode(modes: &Vec<i32>, mode: i32) -> (r: bool)
    ensures
        r == modes@.contains(mode),
{
    let mut i: usize = 0;
    while i < modes.len()
        invariant
            i <= modes@.len(),
            forall|j: int| 0 <= j < i ==> modes@[j] != mode,
        decreases modes.len() - i,
    {
        if modes[i] == mode {
            return true;
        }
        i += 1;
    }
    false
}

/// An sRGB format with 8 bits per channel in the non-linear sRGB color space.
pub open spec fn is_optimal_format(f: SurfaceFormat) -> bool {
    (f.format == FORMAT_B8G8R8A8_SRGB || f.format == FORMAT_R8G8B8A8_SRGB) && f.color_space
        == COLOR_SPACE_SRGB_NONLINEAR
}

/// Whether `r` is the format chosen among `formats`: the first optimal one
/// (see `is_optimal_format`), else the first one offered.
pub open spec fn chosen_format(formats: Seq<SurfaceFormat>, r: SurfaceFormat) -> bool {
    &&& (exists|i: int| 0 <= i < formats.len() && is_optimal_format(formats[i])) ==> {
        &&& is_optimal_format(r)
        &&& exists|i: int|
            0 <= i < formats.len() && formats[i] == r && forall|j: int|
                0 <= j < i ==> !is_optimal_format(#[trigger] formats[j])
    }
    &&& !(exists|i: int| 0 <= i < formats.len() && is_optimal_format(formats[i])) ==> r == formats[0]
}

/// The surface format to use: the first optimal one (see
/// `is_optimal_format`), else the first one offered.
pub fn choose_format(formats: &Vec<SurfaceFormat>) -> (r: SurfaceFormat)
    requires
        formats@.len() > 0,
    ensures
        (exists|i: int| 0 <= i < formats@.len() && is_optimal_format(formats@[i])) ==> {
            &&& is_optimal_format(r)
            &&& exists|i: int|
                0 <= i < formats@.len() && formats@[i] == r && forall|j: int|
                    0 <= j < i ==> !is_optimal_format(#[trigger] formats@[j])
        },
        !(exists|i: int| 0 <= i < formats@.len() && is_optimal_format(formats@[i])) ==> r
            == formats@[0],
        chosen_format(formats@, r),
{
    let mut i: usize = 0;
    while i < formats.len()
        invariant
            i <= formats@.len(),
            forall|j: int| 0 <= j < i ==> !is_optimal_format(#[trigger] formats@[j]),
        decreases formats.len() - i,
    {
        let f = formats[i];
        if (f.format == FORMAT_B8G8R8A8_SRGB || f.format == FORMAT_R8G8B8A8_SRGB) && f.color_space
            == COLOR_SPACE_SRGB_NONLINEAR {
            return f;
        }
        i += 1;
    }
    formats[0]
}

/// When the surface offers an 8-bit sRGB format (BGRA or RGBA) in the
/// non-linear sRGB color space, the chosen format is the first such offer:
/// one of those two formats, in that color space; an offer in another color
/// space is never taken over it. Otherwise the first offer is taken.
pub proof fn law_srgb_nonlinear_is_preferred(formats: Seq<SurfaceFormat>, r: SurfaceFormat)
    requires
        formats.len() > 0,
        chosen_format(formats, r),
    ensures
        (exists|i: int|
            0 <= i < formats.len() && (formats[i].format == 50 || formats[i].format == 43)
                && formats[i].color_space == 0) ==> {
            &&& r.color_space == 0
            &&& r.format == 50 || r.format == 43
            &&& exists|i: int|
                0 <= i < formats.len() && formats[i] == r && forall|j: int|
                    0 <= j < i ==> !((#[trigger] formats[j].format == 50 || formats[j].format == 43)
                        && formats[j].color_space == 0)
        },
        (forall|i: int|
            0 <= i < formats.len() ==> !((#[trigger] formats[i].format == 50 || formats[i].format
                == 43) && formats[i].color_space == 0)) ==> r == formats[0],
{
    if exists|i: int|
        0 <= i < formats.len() && (formats[i].format == 50 || formats[i].format == 43)
            && formats[i].color_space == 0 {
        let i = choose|i: int|
            0 <= i < formats.len() && (formats[i].format == 50 || formats[i].format == 43)
                && formats[i].color_space == 0;
        assert(is_optimal_format(formats[i]));
    } else {
        assert forall|i: int| 0 <= i < formats.len() implies !is_optimal_format(formats[i]) by {
        }
    }
}

} // verus!
