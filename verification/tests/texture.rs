use ash::vk;
use ash_starter::buffer::total_byte_size;
use ash_starter::command_buffers::CommandBufferCache;
use ash_starter::ffi::{copy_to_u32, name_bytes};
use ash_starter::texture::{
    barrier_masks, plan_mipmap_uploads, transition_type, BarrierMasks, BufferTooSmall, MipmapCopy, MipmapExtent,
    TransitionType, ACCESS_SHADER_READ, ACCESS_TRANSFER_WRITE, IMAGE_LAYOUT_SHADER_READ_ONLY_OPTIMAL,
    IMAGE_LAYOUT_TRANSFER_DST_OPTIMAL, IMAGE_LAYOUT_UNDEFINED, STAGE_FRAGMENT_SHADER, STAGE_TOP_OF_PIPE,
    STAGE_TRANSFER,
};

#[test]
pub fn copy_to_u32_reads_little_endian_words() {
    let bytes: [u8; 8] = [0x03, 0x02, 0x23, 0x07, 0xff, 0x00, 0x00, 0x80];
    assert_eq!(copy_to_u32(&bytes), vec![0x0723_0203, 0x8000_00ff]);
    assert_eq!(copy_to_u32(&[]), Vec::<u32>::new());
}

#[test]
pub fn mipmap_sizes_and_upload_plan() {
    let base = MipmapExtent { width: 4, height: 2 };
    let half = MipmapExtent { width: 2, height: 1 };
    assert_eq!(base.size_in_bytes(4), 32);
    // the pixel count may exceed a u32
    let large = MipmapExtent { width: 65536, height: 65536 };
    assert_eq!(large.size_in_bytes(4), 17179869184);
    let plan = plan_mipmap_uploads(&vec![base, half], 4, 40).unwrap();
    assert_eq!(
        plan,
        vec![
            MipmapCopy { mip_level: 0, buffer_offset: 0, extent: base },
            MipmapCopy { mip_level: 1, buffer_offset: 32, extent: half },
        ]
    );
    assert_eq!(plan_mipmap_uploads(&vec![base, half], 4, 39), Err(BufferTooSmall { required: 40, available: 39 }));
}

#[test]
pub fn layout_transitions() {
    assert_eq!(IMAGE_LAYOUT_UNDEFINED, vk::ImageLayout::UNDEFINED.as_raw());
    assert_eq!(IMAGE_LAYOUT_TRANSFER_DST_OPTIMAL, vk::ImageLayout::TRANSFER_DST_OPTIMAL.as_raw());
    assert_eq!(IMAGE_LAYOUT_SHADER_READ_ONLY_OPTIMAL, vk::ImageLayout::SHADER_READ_ONLY_OPTIMAL.as_raw());
    assert_eq!(ACCESS_SHADER_READ, vk::AccessFlags::SHADER_READ.as_raw());
    assert_eq!(ACCESS_TRANSFER_WRITE, vk::AccessFlags::TRANSFER_WRITE.as_raw());
    assert_eq!(STAGE_TOP_OF_PIPE, vk::PipelineStageFlags::TOP_OF_PIPE.as_raw());
    assert_eq!(STAGE_TRANSFER, vk::PipelineStageFlags::TRANSFER.as_raw());
    assert_eq!(STAGE_FRAGMENT_SHADER, vk::PipelineStageFlags::FRAGMENT_SHADER.as_raw());

    assert_eq!(
        transition_type(IMAGE_LAYOUT_UNDEFINED, IMAGE_LAYOUT_TRANSFER_DST_OPTIMAL),
        Some(TransitionType::Write)
    );
    assert_eq!(
        transition_type(IMAGE_LAYOUT_TRANSFER_DST_OPTIMAL, IMAGE_LAYOUT_SHADER_READ_ONLY_OPTIMAL),
        Some(TransitionType::Read)
    );
    assert_eq!(transition_type(IMAGE_LAYOUT_UNDEFINED, IMAGE_LAYOUT_SHADER_READ_ONLY_OPTIMAL), None);
    assert_eq!(
        barrier_masks(TransitionType::Write),
        BarrierMasks {
            src_access_mask: 0,
            src_stage_mask: STAGE_TOP_OF_PIPE,
            dst_access_mask: ACCESS_TRANSFER_WRITE,
            dst_stage_mask: STAGE_TRANSFER
        }
    );
    assert_eq!(barrier_masks(TransitionType::Read).dst_stage_mask, STAGE_FRAGMENT_SHADER);
}

#[test]
pub fn command_buffers_are_reused_after_reset() {
    let mut cache = CommandBufferCache::new();
    assert_eq!(cache.request_command_buffer(), None);
    assert_eq!(cache.record_allocated(10), 10);
    assert_eq!(cache.request_command_buffer(), None);
    cache.record_allocated(11);
    cache.reset();
    assert_eq!(cache.request_command_buffer(), Some(11));
    assert_eq!(cache.request_command_buffer(), Some(10));
    assert_eq!(cache.request_command_buffer(), None);
    assert_eq!(*cache.allocated(), vec![10, 11]);
    cache.clear();
    assert_eq!(*cache.allocated(), Vec::<u64>::new());
}

#[test]
pub fn written_size_counts_every_entry() {
    assert_eq!(total_byte_size(&vec![3, 0, 4], 8), 56);
    assert_eq!(total_byte_size(&vec![], 8), 0);
    assert_eq!(total_byte_size(&vec![5], 0), 0);
}

#[test]
pub fn names_end_at_the_first_nul() {
    assert_eq!(name_bytes(b"VK_KHR_swapchain\0\0\0x"), b"VK_KHR_swapchain".to_vec());
    assert_eq!(name_bytes(b"abc"), b"abc".to_vec());
    assert_eq!(name_bytes(b"\0abc"), Vec::<u8>::new());
    assert_eq!(name_bytes(b""), Vec::<u8>::new());
}
