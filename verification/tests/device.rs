use ash::vk;
use ash::vk::Handle;
use ash_starter::allocation::Allocation;
use ash_starter::memory_type::{find_memory_type_index, MemoryType};
use ash_starter::names::{
    check_extensions, check_layers, check_required_extensions, is_device_suitable, missing_names,
    pick_physical_device, required_device_extensions,
};
use ash_starter::queue_family::{QueueFamilyError, QueueFamilyIndices};

fn strings(names: &[&str]) -> Vec<String> {
    names.iter().map(|n| n.to_string()).collect()
}

#[test]
pub fn null_allocation_has_null_vulkan_handle() {
    let null = Allocation::null();
    assert_eq!(null.memory, vk::DeviceMemory::null().as_raw());
    assert!(null.is_null());
    assert!(!Allocation::new(3, 0, 1, 0).is_null());
}

#[test]
pub fn memory_type_search_takes_first_suitable_type() {
    let host_visible = vk::MemoryPropertyFlags::HOST_VISIBLE.as_raw();
    let host_coherent = vk::MemoryPropertyFlags::HOST_COHERENT.as_raw();
    let device_local = vk::MemoryPropertyFlags::DEVICE_LOCAL.as_raw();
    let types = vec![
        MemoryType { property_flags: device_local, heap_index: 0 },
        MemoryType { property_flags: host_visible, heap_index: 1 },
        MemoryType { property_flags: host_visible | host_coherent, heap_index: 1 },
        MemoryType { property_flags: host_visible | host_coherent | device_local, heap_index: 1 },
    ];
    let wanted = host_visible | host_coherent;
    assert_eq!(find_memory_type_index(&types, 0b1111, wanted), Some(2));
    // type 2 not allowed by the resource
    assert_eq!(find_memory_type_index(&types, 0b1011, wanted), Some(3));
    assert_eq!(find_memory_type_index(&types, 0b0011, wanted), None);
    assert_eq!(find_memory_type_index(&types, 0b0001, device_local), Some(0));
}

#[test]
pub fn queue_families_prefer_one_family_for_both_uses() {
    let graphics = vk::QueueFlags::GRAPHICS.as_raw();
    let compute = vk::QueueFlags::COMPUTE.as_raw();
    let flags = vec![graphics | compute, compute, graphics, compute];
    // family 0 does both, so it serves both
    let found = QueueFamilyIndices::find(&flags, &vec![true, true, false, false]).unwrap();
    assert_eq!(found, QueueFamilyIndices { graphics_family_index: 0, present_family_index: 0 });
    assert_eq!(found.as_queue_create_infos(), vec![0]);
    assert!(found.shares_queue());
    // of several families that do both, the last one is taken
    let both = QueueFamilyIndices::find(&vec![graphics, graphics, graphics], &vec![true, false, true]).unwrap();
    assert_eq!(both, QueueFamilyIndices { graphics_family_index: 2, present_family_index: 2 });
    let both = QueueFamilyIndices::find(&vec![graphics, graphics, 0], &vec![true, false, true]).unwrap();
    assert_eq!(both, QueueFamilyIndices { graphics_family_index: 0, present_family_index: 0 });
    // no family does both: the last family with each capability
    let split = QueueFamilyIndices::find(&flags, &vec![false, true, false, false]).unwrap();
    assert_eq!(split, QueueFamilyIndices { graphics_family_index: 2, present_family_index: 1 });
    assert_eq!(split.as_queue_create_infos(), vec![2, 1]);
    assert!(!split.shares_queue());
    let shared = QueueFamilyIndices::find(&vec![graphics], &vec![true]).unwrap();
    assert_eq!(shared.as_queue_create_infos(), vec![0]);
    assert!(shared.shares_queue());
    assert_eq!(QueueFamilyIndices::find(&vec![compute], &vec![true]), Err(QueueFamilyError::NoGraphicsQueue));
    assert_eq!(QueueFamilyIndices::find(&vec![graphics], &vec![false]), Err(QueueFamilyError::NoPresentQueue));
}

#[test]
pub fn missing_names_keep_required_order() {
    let available = strings(&["a", "b", "c"]);
    assert_eq!(missing_names(&strings(&["d", "a", "e"]), &available), strings(&["d", "e"]));
    assert_eq!(check_extensions(&available, &strings(&["c", "a"])), Ok(()));
    assert_eq!(check_extensions(&available, &strings(&["z"])), Err(strings(&["z"])));
    assert_eq!(check_layers(&available, &strings(&["b"])), Ok(()));
    assert_eq!(check_layers(&available, &strings(&["q", "b"])), Err(strings(&["q"])));
}

#[test]
pub fn required_device_extensions_name_the_swapchain() {
    let names = required_device_extensions();
    assert_eq!(names, vec![ash::extensions::khr::Swapchain::name().to_str().unwrap().to_owned()]);
    assert_eq!(names, strings(&["VK_KHR_swapchain"]));
    assert!(check_required_extensions(&strings(&["VK_KHR_maintenance1", "VK_KHR_swapchain"])));
    assert!(!check_required_extensions(&strings(&["VK_KHR_maintenance1"])));
}

#[test]
pub fn device_suitability_needs_every_feature() {
    assert!(is_device_suitable(true, true, 2, 1, true));
    assert!(!is_device_suitable(true, true, 0, 1, true));
    assert!(!is_device_suitable(true, true, 2, 0, true));
    assert!(!is_device_suitable(false, true, 2, 1, true));
    assert!(!is_device_suitable(true, false, 2, 1, true));
    assert!(!is_device_suitable(true, true, 2, 1, false));
    assert_eq!(pick_physical_device(&vec![false, true, true]), Some(1));
    assert_eq!(pick_physical_device(&vec![false]), None);
}
