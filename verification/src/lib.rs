//! Verified building blocks of a small Vulkan renderer: a composable device
//! memory allocator (regions, suballocation, pooling, page rounding, size and
//! memory-type dispatch, usage metrics) and the decision logic used when
//! setting up devices, swapchains, textures and command buffers.

pub mod allocation;
pub mod allocator;
pub mod buffer;
pub mod command_buffers;
pub mod error;
pub mod ffi;
pub mod forced_offset;
pub mod mem_unit;
pub mod memory_type;
pub mod metrics;
pub mod names;
pub mod page_allocator;
pub mod pool;
pub mod queue_family;
pub mod region;
pub mod report;
pub mod selection;
pub mod size_selector;
pub mod standard;
pub mod suballocator;
pub mod texture;
pub mod type_index;
