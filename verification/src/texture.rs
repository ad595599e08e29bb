//! Texture uploads: mipmap sizes, where each mipmap lies in the source
//! buffer, and the image layout transitions around the copy.

use vstd::prelude::*;

verus! {

/// `VK_IMAGE_LAYOUT_UNDEFINED`.
pub const IMAGE_LAYOUT_UNDEFINED: i32 = 0;

/// `VK_IMAGE_LAYOUT_SHADER_READ_ONLY_OPTIMAL`.
pub const IMAGE_LAYOUT_SHADER_READ_ONLY_OPTIMAL: i32 = 5;

/// `VK_IMAGE_LAYOUT_TRANSFER_DST_OPTIMAL`.
pub const IMAGE_LAYOUT_TRANSFER_DST_OPTIMAL: i32 = 7;

/// `VK_ACCESS_SHADER_READ_BIT`.
pub const ACCESS_SHADER_READ: u32 = 0x20;

/// `VK_ACCESS_TRANSFER_WRITE_BIT`.
pub const ACCESS_TRANSFER_WRITE: u32 = 0x1000;

/// `VK_PIPELINE_STAGE_TOP_OF_PIPE_BIT`.
pub const STAGE_TOP_OF_PIPE: u32 = 0x1;

/// `VK_PIPELINE_STAGE_FRAGMENT_SHADER_BIT`.
pub const STAGE_FRAGMENT_SHADER: u32 = 0x80;

/// `VK_PIPELINE_STAGE_TRANSFER_BIT`.
pub const STAGE_TRANSFER: u32 = 0x1000;

/// This struct defines the size of a mipmap level.
#[derive(Clone, Copy, Debug, PartialEq, Eq, Structural)]
pub struct MipmapExtent {
    /// The mipmap level's width, in pixels.
    pub width: u32,
    /// The mipmap level's height, in pixels.
    pub height: u32,
}

impl MipmapExtent {
    /// The bytes a mipmap level of this size takes.
    pub open spec fn bytes(self, bytes_per_pixel: u64) -> int {
        self.width * self.height * bytes_per_pixel
    }

    /// The byte count fits in a `u64`.
    pub open spec fn fits(self, bytes_per_pixel: u64) -> bool {
        self.bytes(bytes_per_pixel) <= u64::MAX
    }

    /// The expected size of the mipmap based on its dimensions and the bytes
    /// per pixel.
    pub fn size_in_bytes(&self, bytes_per_pixel: u64) -> (s: u64)
        requires
            self.fits(bytes_per_pixel),
        ensures
            s == self.bytes(bytes_per_pixel),
    {
        let w = self.width as u64;
        let h = self.height as u64;
        proof {
            assert(w * h <= 0xffff_ffff * 0xffff_ffffu64) by (nonlinear_arith)
                requires
                    w <= 0xffff_ffff,
                    h <= 0xffff_ffff,
            ;
        }
        w * h * bytes_per_pixel
    }
}

/// The bytes taken by the first `n` mipmap levels.
pub open spec fn mipmaps_bytes(mipmaps: Seq<MipmapExtent>, bytes_per_pixel: u64, n: int) -> int
    decreases n,
{
    if n <= 0 {
        0
    } else {
        mipmaps_bytes(mipmaps, bytes_per_pixel, n - 1) + mipmaps[n - 1].bytes(bytes_per_pixel)
    }
}

proof fn lemma_mipmaps_bytes_grow(mipmaps: Seq<MipmapExtent>, bytes_per_pixel: u64, a: int, b: int)
    requires
        0 <= a <= b <= mipmaps.len(),
    ensures
        mipmaps_bytes(mipmaps, bytes_per_pixel, a) <= mipmaps_bytes(mipmaps, bytes_per_pixel, b),
    decreases b - a,
{
    if a < b {
        lemma_mipmaps_bytes_grow(mipmaps, bytes_per_pixel, a, b - 1);
        let m = mipmaps[b - 1];
        assert(m.width * m.height * bytes_per_pixel >= 0) by (nonlinear_arith);
    }
}

/// One buffer-to-image copy of a texture upload.
#[derive(Clone, Copy, Debug, PartialEq, Eq, Structural)]
pub struct MipmapCopy {
    /// The mipmap level written.
    pub mip_level: u32,
    /// Where the level's pixels start in the source buffer.
    pub buffer_offset: u64,
    /// The level's size.
    pub extent: MipmapExtent,
}

/// The source buffer holds fewer bytes than the mipmaps need.
#[derive(Clone, Copy, Debug, PartialEq, Eq, Structural)]
pub struct BufferTooSmall {
    /// Bytes the mipmaps need.
    pub required: u64,
    /// Bytes the buffer holds.
    pub available: u64,
}

/// Plan the copies that upload a texture's mipmaps from a buffer.
///
/// The first mipmap occupies the first bytes of the buffer and each next one
/// follows the previous one; mipmap `i` is written to level `i`. Err when the
/// buffer holds fewer bytes than all mipmaps together.
pub fn plan_mipmap_uploads(mipmap_sizes: &Vec<MipmapExtent>, bytes_per_pixel: u64, buffer_size: u64) -> (r: Result<
    Vec<MipmapCopy>,
    BufferTooSmall,
>)
    requires
        mipmap_sizes.len() <= u32::MAX,
        forall|i: int| 0 <= i < mipmap_sizes.len() ==> (#[trigger] mipmap_sizes@[i]).fits(bytes_per_pixel),
        mipmaps_bytes(mipmap_sizes@, bytes_per_pixel, mipmap_sizes.len() as int) <= u64::MAX,
    ensures
        mipmaps_bytes(mipmap_sizes@, bytes_per_pixel, mipmap_sizes.len() as int) > buffer_size <==> r is Err,
        r matches Err(e) ==> e == (BufferTooSmall {
            required: mipmaps_bytes(mipmap_sizes@, bytes_per_pixel, mipmap_sizes.len() as int) as u64,
            available: buffer_size,
        }),
        r matches Ok(copies) ==> copies@.len() == mipmap_sizes.len() && forall|i: int|
            0 <= i < copies@.len() ==> #[trigger] copies@[i] == (MipmapCopy {
                mip_level: i as u32,
                buffer_offset: mipmaps_bytes(mipmap_sizes@, bytes_per_pixel, i) as u64,
                extent: mipmap_sizes@[i],
            }),
{
    let n = mipmap_sizes.len();
    let mut required_size: u64 = 0;
    let mut i: usize = 0;
    while i < n
        invariant
            n == mipmap_sizes@.len(),
            i <= n,
            forall|k: int| 0 <= k < n ==> (#[trigger] mipmap_sizes@[k]).fits(bytes_per_pixel),
            mipmaps_bytes(mipmap_sizes@, bytes_per_pixel, n as int) <= u64::MAX,
            required_size == mipmaps_bytes(mipmap_sizes@, bytes_per_pixel, i as int),
        decreases n - i,
    {
        proof {
            lemma_mipmaps_bytes_grow(mipmap_sizes@, bytes_per_pixel, i + 1, n as int);
        }
        required_size = required_size + mipmap_sizes[i].size_in_bytes(bytes_per_pixel);
        i = i + 1;
    }
    if required_size > buffer_size {
        return Err(BufferTooSmall { required: required_size, available: buffer_size });
    }
    let mut copies: Vec<MipmapCopy> = Vec::new();
    let mut offset: u64 = 0;
    let mut level: usize = 0;
    while level < n
        invariant
            n == mipmap_sizes@.len(),
            n <= u32::MAX,
            level <= n,
            forall|k: int| 0 <= k < n ==> (#[trigger] mipmap_sizes@[k]).fits(bytes_per_pixel),
            mipmaps_bytes(mipmap_sizes@, bytes_per_pixel, n as int) <= u64::MAX,
            offset == mipmaps_bytes(mipmap_sizes@, bytes_per_pixel, level as int),
            copies@.len() == level,
            forall|k: int|
                0 <= k < level ==> #[trigger] copies@[k] == (MipmapCopy {
                    mip_level: k as u32,
                    buffer_offset: mipmaps_bytes(mipmap_sizes@, bytes_per_pixel, k) as u64,
                    extent: mipmap_sizes@[k],
                }),
        decreases n - level,
    {
        proof {
            lemma_mipmaps_bytes_grow(mipmap_sizes@, bytes_per_pixel, level + 1, n as int);
        }
        let extent = mipmap_sizes[level];
        copies.push(MipmapCopy { mip_level: level as u32, buffer_offset: offset, extent });
        offset = offset + extent.size_in_bytes(bytes_per_pixel);
        level = level + 1;
    }
    Ok(copies)
}

/// The two layout transitions a texture upload makes.
#[derive(Clone, Copy, Debug, PartialEq, Eq, Structural)]
pub enum TransitionType {
    /// From undefined contents to a transfer destination.
    Write,
    /// From a transfer destination to shader-readable.
    Read,
}

/// Which of the supported transitions goes from `old_layout` to
/// `new_layout`; any other combination is invalid.
pub fn transition_type(old_layout: i32, new_layout: i32) -> (t: Option<TransitionType>)
    ensures
        old_layout == IMAGE_LAYOUT_UNDEFINED && new_layout == IMAGE_LAYOUT_TRANSFER_DST_OPTIMAL ==> t == Some(
            TransitionType::Write,
        ),
        old_layout == IMAGE_LAYOUT_TRANSFER_DST_OPTIMAL && new_layout == IMAGE_LAYOUT_SHADER_READ_ONLY_OPTIMAL
            ==> t == Some(TransitionType::Read),
        !(old_layout == IMAGE_LAYOUT_UNDEFINED && new_layout == IMAGE_LAYOUT_TRANSFER_DST_OPTIMAL) && !(old_layout
            == IMAGE_LAYOUT_TRANSFER_DST_OPTIMAL && new_layout == IMAGE_LAYOUT_SHADER_READ_ONLY_OPTIMAL) ==> t
            is None,
{
    if old_layout == IMAGE_LAYOUT_UNDEFINED && new_layout == IMAGE_LAYOUT_TRANSFER_DST_OPTIMAL {
        Some(TransitionType::Write)
    } else if old_layout == IMAGE_LAYOUT_TRANSFER_DST_OPTIMAL && new_layout
        == IMAGE_LAYOUT_SHADER_READ_ONLY_OPTIMAL {
        Some(TransitionType::Read)
    } else {
        None
    }
}

/// The access masks and pipeline stages of an image memory barrier.
#[derive(Clone, Copy, Debug, PartialEq, Eq, Structural)]
pub struct BarrierMasks {
    pub src_access_mask: u32,
    pub src_stage_mask: u32,
    pub dst_access_mask: u32,
    pub dst_stage_mask: u32,
}

/// The barrier each transition needs: before a write nothing has to finish
/// and the transfer waits; before a read the transfer's writes must finish
/// before the fragment shader reads.
pub fn barrier_masks(transition: TransitionType) -> (m: BarrierMasks)
    ensures
        transition == TransitionType::Write ==> m == (BarrierMasks {
            src_access_mask: 0,
            src_stage_mask: STAGE_TOP_OF_PIPE,
            dst_access_mask: ACCESS_TRANSFER_WRITE,
            dst_stage_mask: STAGE_TRANSFER,
        }),
        transition == TransitionType::Read ==> m == (BarrierMasks {
            src_access_mask: ACCESS_TRANSFER_WRITE,
            src_stage_mask: STAGE_TRANSFER,
            dst_access_mask: ACCESS_SHADER_READ,
            dst_stage_mask: STAGE_FRAGMENT_SHADER,
        }),
{
    match transition {
        TransitionType::Write => BarrierMasks {
            src_access_mask: 0,
            src_stage_mask: STAGE_TOP_OF_PIPE,
            dst_access_mask: ACCESS_TRANSFER_WRITE,
            dst_stage_mask: STAGE_TRANSFER,
        },
        TransitionType::Read => BarrierMasks {
            src_access_mask: ACCESS_TRANSFER_WRITE,
            src_stage_mask: STAGE_TRANSFER,
            dst_access_mask: ACCESS_SHADER_READ,
            dst_stage_mask: STAGE_FRAGMENT_SHADER,
        },
    }
}

} // verus!
