//! Choosing the swapchain's properties from what the surface supports.

use vstd::prelude::*;

verus! {

/// `VK_FORMAT_B8G8R8A8_SRGB`.
pub const FORMAT_B8G8R8A8_SRGB: i32 = 50;

/// `VK_COLOR_SPACE_SRGB_NONLINEAR_KHR`.
pub const COLOR_SPACE_SRGB_NONLINEAR: i32 = 0;

/// `VK_PRESENT_MODE_IMMEDIATE_KHR`.
pub const PRESENT_MODE_IMMEDIATE: i32 = 0;

/// `VK_PRESENT_MODE_MAILBOX_KHR`.
pub const PRESENT_MODE_MAILBOX: i32 = 1;

/// A two-dimensional size in pixels.
#[derive(Clone, Copy, Debug, PartialEq, Eq, Structural)]
pub struct Extent2D {
    pub width: u32,
    pub height: u32,
}

/// The parts of a surface's capabilities that the swapchain settings depend
/// on.
#[derive(Clone, Copy, Debug, PartialEq, Eq, Structural)]
pub struct SurfaceCapabilities {
    pub min_image_count: u32,
    /// Zero when there is no maximum.
    pub max_image_count: u32,
    /// `u32::MAX` wide when the surface lets the swapchain decide.
    pub current_extent: Extent2D,
    pub min_image_extent: Extent2D,
    pub max_image_extent: Extent2D,
}

/// A pixel format and color space pair supported by a surface.
#[derive(Clone, Copy, Debug, PartialEq, Eq, Structural)]
pub struct SurfaceFormat {
    pub format: i32,
    pub color_space: i32,
}

/// The format this application prefers: 8-bit BGRA in the sRGB color space.
pub open spec fn is_preferred_format(f: SurfaceFormat) -> bool {
    f.color_space == COLOR_SPACE_SRGB_NONLINEAR && f.format == FORMAT_B8G8R8A8_SRGB
}

/// `x` limited to the range from `min` to `max`; the lower bound wins when
/// the range is empty.
pub open spec fn clamp_spec(x: u32, min: u32, max: u32) -> u32 {
    let upper = if x <= max { x } else { max };
    if min >= upper { min } else { upper }
}

/// Choose the number of images to use in the swapchain based on the min and
/// max numbers of images supported by the device: one more than the minimum,
/// but no more than the maximum when there is one.
pub fn choose_image_count(capabilities: &SurfaceCapabilities) -> (n: u32)
    requires
        capabilities.min_image_count < u32::MAX,
    ensures
        capabilities.max_image_count > 0 && capabilities.max_image_count < capabilities.min_image_count + 1
            ==> n == capabilities.max_image_count,
        !(capabilities.max_image_count > 0 && capabilities.max_image_count < capabilities.min_image_count + 1)
            ==> n == capabilities.min_image_count + 1,
{
    let proposed_image_count = capabilities.min_image_count + 1;
    if capabilities.max_image_count > 0 && capabilities.max_image_count < proposed_image_count {
        capabilities.max_image_count
    } else {
        proposed_image_count
    }
}

/// Choose a surface format for the swapchain: the preferred sRGB format when
/// the surface supports it, else the first supported format.
pub fn choose_surface_format(formats: &Vec<SurfaceFormat>) -> (f: SurfaceFormat)
    requires
        formats.len() > 0,
    ensures
        (exists|i: int| 0 <= i < formats.len() && is_preferred_format(#[trigger] formats@[i])) ==> is_preferred_format(
            f,
        ),
        !(exists|i: int| 0 <= i < formats.len() && is_preferred_format(#[trigger] formats@[i])) ==> f
            == formats@[0],
{
    let n = formats.len();
    let mut i: usize = 0;
    while i < n
        invariant
            n == formats@.len(),
            i <= n,
            forall|j: int| 0 <= j < i ==> !is_preferred_format(#[trigger] formats@[j]),
        decreases n - i,
    {
        let format = formats[i];
        if format.color_space == COLOR_SPACE_SRGB_NONLINEAR && format.format == FORMAT_B8G8R8A8_SRGB {
            return format;
        }
        i = i + 1;
    }
    formats[0]
}

/// Choose a presentation mode: mailbox when the surface supports it,
/// otherwise immediate.
pub fn choose_present_mode(modes: &Vec<i32>) -> (m: i32)
    ensures
        modes@.contains(PRESENT_MODE_MAILBOX) ==> m == PRESENT_MODE_MAILBOX,
        !modes@.contains(PRESENT_MODE_MAILBOX) ==> m == PRESENT_MODE_IMMEDIATE,
{
    let n = modes.len();
    let mut i: usize = 0;
    while i < n
        invariant
            n == modes@.len(),
            i <= n,
            forall|j: int| 0 <= j < i ==> modes@[j] != PRESENT_MODE_MAILBOX,
        decreases n - i,
    {
        if modes[i] == PRESENT_MODE_MAILBOX {
            assert(modes@.contains(PRESENT_MODE_MAILBOX));
            return PRESENT_MODE_MAILBOX;
        }
        i = i + 1;
    }
    PRESENT_MODE_IMMEDIATE
}

/// Choose the swap extent: the surface's current extent when it has one,
/// otherwise the window's framebuffer size limited to the supported range.
pub fn choose_swap_extent(capabilities: &SurfaceCapabilities, framebuffer_size: (u32, u32)) -> (e: Extent2D)
    ensures
        capabilities.current_extent.width != u32::MAX ==> e == capabilities.current_extent,
        capabilities.current_extent.width == u32::MAX ==> e == (Extent2D {
            width: clamp_spec(
                framebuffer_size.0,
                capabilities.min_image_extent.width,
                capabilities.max_image_extent.width,
            ),
            height: clamp_spec(
                framebuffer_size.1,
                capabilities.min_image_extent.height,
                capabilities.max_image_extent.height,
            ),
        }),
{
    if capabilities.current_extent.width != u32::MAX {
        capabilities.current_extent
    } else {
        let (width, height) = framebuffer_size;
        Extent2D {
            width: clamp(width, capabilities.min_image_extent.width, capabilities.max_image_extent.width),
            height: clamp(height, capabilities.min_image_extent.height, capabilities.max_image_extent.height),
        }
    }
}

/// Clamp a value between a minimum and maximum bound.
pub fn clamp(x: u32, min: u32, max: u32) -> (c: u32)
    ensures
        c == clamp_spec(x, min, max),
{
    let upper = if x <= max { x } else { max };
    if min >= upper { min } else { upper }
}

/// The queue families that must share the swapchain's images, given the
/// family and index of the graphics queue and of the presentation queue: none
/// when one queue does both (the images are used exclusively), else the
/// graphics family and then the presentation family (the images are used
/// concurrently).
pub fn concurrent_sharing_families(
    graphics_family: u32,
    graphics_index: u32,
    present_family: u32,
    present_index: u32,
) -> (families: Vec<u32>)
    ensures
        graphics_family == present_family && graphics_index == present_index ==> families@
            == Seq::<u32>::empty(),
        !(graphics_family == present_family && graphics_index == present_index) ==> families@ == seq![
            graphics_family,
            present_family,
        ],
{
    let mut families: Vec<u32> = Vec::new();
    if !(graphics_family == present_family && graphics_index == present_index) {
        families.push(graphics_family);
        families.push(present_family);
    }
    families
}

} // verus!
