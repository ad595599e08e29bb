# ash_starter

Tools for rendering 2-D graphics with Vulkan through `ash`.

`src/` is a library verified with Verus. Its core is a composable device
memory allocator:

- `region`, `suballocator`: byte ranges and a first-fit suballocator whose
  free list stays sorted, non-overlapping and merged; freeing refuses double
  frees, and freeing what was just allocated restores the free list.
- `allocator`: the `DeviceAllocator` trait every allocator implements. Its
  contract includes a ghost record of the calls made of an allocator, so an
  allocator that decorates another one states exactly what it asked of it.
- `page_allocator`, `size_selector`, `forced_offset`, `type_index`, `pool`,
  `metrics`, `standard`: allocators that decorate or dispatch to others, and
  the stack the renderer uses.

Beside it are the decisions made while setting up Vulkan: memory type choice
(`memory_type`), queue families (`queue_family`), layer and extension checks
and device choice (`names`), swapchain settings (`selection`), texture upload
plans and layout transitions (`texture`), command buffer reuse
(`command_buffers`), SPIR-V words (`ffi`), written buffer sizes (`buffer`) and
byte counts for the memory report (`report`).

`app/` is the program: the window, the Vulkan objects, the driver-backed
allocator and the report printing, all calling into the library for the
decisions.
