use ash::vk;
use ash_starter::selection::{
    choose_image_count, choose_present_mode, choose_surface_format, choose_swap_extent, clamp, concurrent_sharing_families,
    Extent2D,
    SurfaceCapabilities, SurfaceFormat, COLOR_SPACE_SRGB_NONLINEAR, FORMAT_B8G8R8A8_SRGB, PRESENT_MODE_IMMEDIATE,
    PRESENT_MODE_MAILBOX,
};

fn capabilities(min: u32, max: u32, current: Extent2D) -> SurfaceCapabilities {
    SurfaceCapabilities {
        min_image_count: min,
        max_image_count: max,
        current_extent: current,
        min_image_extent: Extent2D { width: 100, height: 50 },
        max_image_extent: Extent2D { width: 2000, height: 1000 },
    }
}

#[test]
pub fn constants_match_vulkan() {
    assert_eq!(FORMAT_B8G8R8A8_SRGB, vk::Format::B8G8R8A8_SRGB.as_raw());
    assert_eq!(COLOR_SPACE_SRGB_NONLINEAR, vk::ColorSpaceKHR::SRGB_NONLINEAR.as_raw());
    assert_eq!(PRESENT_MODE_IMMEDIATE, vk::PresentModeKHR::IMMEDIATE.as_raw());
    assert_eq!(PRESENT_MODE_MAILBOX, vk::PresentModeKHR::MAILBOX.as_raw());
}

#[test]
pub fn image_count_is_one_more_than_minimum_within_maximum() {
    let e = Extent2D { width: 1, height: 1 };
    assert_eq!(choose_image_count(&capabilities(2, 0, e)), 3);
    assert_eq!(choose_image_count(&capabilities(2, 8, e)), 3);
    assert_eq!(choose_image_count(&capabilities(2, 2, e)), 2);
}

#[test]
pub fn surface_format_prefers_srgb() {
    let other = SurfaceFormat { format: 44, color_space: COLOR_SPACE_SRGB_NONLINEAR };
    let preferred = SurfaceFormat { format: FORMAT_B8G8R8A8_SRGB, color_space: COLOR_SPACE_SRGB_NONLINEAR };
    assert_eq!(choose_surface_format(&vec![other, preferred]), preferred);
    assert_eq!(choose_surface_format(&vec![other]), other);
    let wrong_space = SurfaceFormat { format: FORMAT_B8G8R8A8_SRGB, color_space: 7 };
    assert_eq!(choose_surface_format(&vec![wrong_space, other]), wrong_space);
}

#[test]
pub fn present_mode_prefers_mailbox() {
    assert_eq!(choose_present_mode(&vec![2, PRESENT_MODE_MAILBOX]), PRESENT_MODE_MAILBOX);
    assert_eq!(choose_present_mode(&vec![2, 3]), PRESENT_MODE_IMMEDIATE);
    assert_eq!(choose_present_mode(&vec![]), PRESENT_MODE_IMMEDIATE);
}

#[test]
pub fn swap_extent_uses_current_or_clamped_framebuffer() {
    let current = Extent2D { width: 800, height: 600 };
    assert_eq!(choose_swap_extent(&capabilities(1, 0, current), (5000, 5000)), current);
    let undecided = Extent2D { width: u32::MAX, height: u32::MAX };
    assert_eq!(
        choose_swap_extent(&capabilities(1, 0, undecided), (5000, 10)),
        Extent2D { width: 2000, height: 50 }
    );
    assert_eq!(
        choose_swap_extent(&capabilities(1, 0, undecided), (1366, 768)),
        Extent2D { width: 1366, height: 768 }
    );
}

#[test]
pub fn clamp_limits_to_range() {
    assert_eq!(clamp(5, 1, 10), 5);
    assert_eq!(clamp(0, 1, 10), 1);
    assert_eq!(clamp(11, 1, 10), 10);
    // an empty range yields its lower bound
    assert_eq!(clamp(5, 10, 1), 10);
}

#[test]
pub fn swapchain_images_are_shared_only_between_different_queues() {
    assert_eq!(concurrent_sharing_families(0, 0, 0, 0), Vec::<u32>::new());
    assert_eq!(concurrent_sharing_families(0, 0, 2, 0), vec![0, 2]);
    // the same family but another queue in it still shares concurrently
    assert_eq!(concurrent_sharing_families(1, 0, 1, 1), vec![1, 1]);
}
