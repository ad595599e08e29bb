//! Finding the queue families the application needs.

use ash::vk;
use vstd::prelude::*;

verus! {

/// Whether a queue family's flags include graphics support.
///
/// Trusted: calls `ash::vk::QueueFlags::contains` with
/// `QueueFlags::GRAPHICS`; ash's source defines `contains` as
/// `self & other == other` and `GRAPHICS` as the bit `0b1`.
#[verifier::external_body]
fn supports_graphics(queue_flags: u32) -> (b: bool)
    ensures
        b == (queue_flags & 1 == 1),
{
    vk::QueueFlags::from_raw(queue_flags).contains(vk::QueueFlags::GRAPHICS)
}

/// Why no suitable queue families were found.
#[derive(Clone, Copy, Debug, PartialEq, Eq, Structural)]
pub enum QueueFamilyError {
    /// No queue family supports graphics.
    NoGraphicsQueue,
    /// No queue family can present to the surface.
    NoPresentQueue,
}

/// This struct holds all of the queue indices required by this application.
#[derive(Clone, Copy, Debug, PartialEq, Eq, Structural)]
pub struct QueueFamilyIndices {
    /// the index for the graphics queue
    pub graphics_family_index: u32,
    /// the index for the presentation queue
    pub present_family_index: u32,
}

/// The last family among the first `n` that supports graphics, or `-1`.
pub open spec fn last_graphics_family(queue_flags: Seq<u32>, n: int) -> int
    decreases n,
{
    if n <= 0 {
        -1
    } else if queue_flags[n - 1] & 1 == 1 {
        n - 1
    } else {
        last_graphics_family(queue_flags, n - 1)
    }
}

/// The last family among the first `n` that can present, or `-1`.
pub open spec fn last_present_family(present_support: Seq<bool>, n: int) -> int
    decreases n,
{
    if n <= 0 {
        -1
    } else if present_support[n - 1] {
        n - 1
    } else {
        last_present_family(present_support, n - 1)
    }
}

/// The last family among the first `n` that supports graphics and can also
/// present, or `-1`.
pub open spec fn last_shared_family(queue_flags: Seq<u32>, present_support: Seq<bool>, n: int) -> int
    decreases n,
{
    if n <= 0 {
        -1
    } else if queue_flags[n - 1] & 1 == 1 && present_support[n - 1] {
        n - 1
    } else {
        last_shared_family(queue_flags, present_support, n - 1)
    }
}

impl QueueFamilyIndices {
    /// Find all of the queue families required by this application, given
    /// each family's queue flags and whether it can present to the surface.
    ///
    /// Yields an Err if any of the queues cannot be found. The search is
    /// greedy: when some family supports graphics and can present, the last
    /// such family serves both purposes; otherwise the last family with each
    /// capability is chosen for it.
    pub fn find(queue_flags: &Vec<u32>, present_support: &Vec<bool>) -> (r: Result<Self, QueueFamilyError>)
        requires
            queue_flags.len() == present_support.len(),
            queue_flags.len() <= u32::MAX,
        ensures
            ({
                let n = queue_flags@.len() as int;
                let g = last_graphics_family(queue_flags@, n);
                let p = last_present_family(present_support@, n);
                let s = last_shared_family(queue_flags@, present_support@, n);
                &&& g < 0 ==> r == Err::<Self, QueueFamilyError>(QueueFamilyError::NoGraphicsQueue)
                &&& g >= 0 && p < 0 ==> r == Err::<Self, QueueFamilyError>(QueueFamilyError::NoPresentQueue)
                &&& s >= 0 ==> r == Ok::<Self, QueueFamilyError>(
                    QueueFamilyIndices { graphics_family_index: s as u32, present_family_index: s as u32 },
                )
                &&& s < 0 && g >= 0 && p >= 0 ==> r == Ok::<Self, QueueFamilyError>(
                    QueueFamilyIndices { graphics_family_index: g as u32, present_family_index: p as u32 },
                )
            }),
    {
        let n = queue_flags.len();
        let mut graphics_family: Option<u32> = None;
        let mut present_family: Option<u32> = None;
        let mut shared_family: Option<u32> = None;
        let mut i: usize = 0;
        while i < n
            invariant
                n == queue_flags@.len(),
                n == present_support@.len(),
                n <= u32::MAX,
                i <= n,
                last_graphics_family(queue_flags@, i as int) < 0 ==> graphics_family is None,
                last_graphics_family(queue_flags@, i as int) >= 0 ==> graphics_family == Some(
                    last_graphics_family(queue_flags@, i as int) as u32,
                ),
                last_present_family(present_support@, i as int) < 0 ==> present_family is None,
                last_present_family(present_support@, i as int) >= 0 ==> present_family == Some(
                    last_present_family(present_support@, i as int) as u32,
                ),
                last_shared_family(queue_flags@, present_support@, i as int) < 0 ==> shared_family is None,
                last_shared_family(queue_flags@, present_support@, i as int) >= 0 ==> shared_family == Some(
                    last_shared_family(queue_flags@, present_support@, i as int) as u32,
                ),
                -1 <= last_graphics_family(queue_flags@, i as int) < i,
                -1 <= last_present_family(present_support@, i as int) < i,
                -1 <= last_shared_family(queue_flags@, present_support@, i as int) < i,
                last_shared_family(queue_flags@, present_support@, i as int) >= 0 ==> last_graphics_family(
                    queue_flags@,
                    i as int,
                ) >= 0 && last_present_family(present_support@, i as int) >= 0,
            decreases n - i,
        {
            let graphics = supports_graphics(queue_flags[i]);
            if graphics {
                graphics_family = Some(i as u32);
            }
            if present_support[i] {
                present_family = Some(i as u32);
                if graphics {
                    shared_family = Some(i as u32);
                }
            }
            i = i + 1;
        }
        let graphics_family_index = match graphics_family {
            Some(g) => g,
            None => return Err(QueueFamilyError::NoGraphicsQueue),
        };
        let present_family_index = match present_family {
            Some(p) => p,
            None => return Err(QueueFamilyError::NoPresentQueue),
        };
        match shared_family {
            Some(s) => Ok(QueueFamilyIndices { graphics_family_index: s, present_family_index: s }),
            None => Ok(QueueFamilyIndices { graphics_family_index, present_family_index }),
        }
    }

    /// The queue families to create queues in: the graphics family, and the
    /// presentation family when it is a different one.
    pub fn as_queue_create_infos(&self) -> (families: Vec<u32>)
        ensures
            self.graphics_family_index == self.present_family_index ==> families@ == seq![
                self.graphics_family_index,
            ],
            self.graphics_family_index != self.present_family_index ==> families@ == seq![
                self.graphics_family_index,
                self.present_family_index,
            ],
    {
        let mut create_infos: Vec<u32> = Vec::new();
        create_infos.push(self.graphics_family_index);
        if self.graphics_family_index != self.present_family_index {
            create_infos.push(self.present_family_index);
        }
        create_infos
    }

    /// Whether one queue serves both graphics and presentation.
    pub fn shares_queue(&self) -> (b: bool)
        ensures
            b == (self.graphics_family_index == self.present_family_index),
    {
        self.graphics_family_index == self.present_family_index
    }
}

} // verus!
