//! Choosing the hardware to run on.
use vstd::prelude::*;

verus! {

/// The capability bit of a queue family that takes graphics work.
pub const QUEUE_GRAPHICS: u32 = 0x1;

/// The physical device and the queue family on it that the engine uses.
#[derive(Clone, Copy, Debug, PartialEq, Eq, Structural)]
pub struct HardwareSelection {
    pub physical_device: u64,
    pub queue_family: u32,
}

/// Whether a queue family with the capabilities `flags` takes graphics work.
pub open spec fn takes_graphics(flags: u32) -> bool {
    flags & QUEUE_GRAPHICS != 0
}

impl HardwareSelection {
    /// Picks the first queue family of `physical_device` that takes graphics work.
    /// `queue_flags` holds the capabilities of the device's queue families, in the device's
    /// order. There is no selection if no family takes graphics work.
    pub fn query(physical_device: u64, queue_flags: &[u32]) -> (selection: Option<HardwareSelection>)
        requires
            queue_flags@.len() <= u32::MAX,
        ensures
            match selection {
                Some(selected) => {
                    &&& selected.physical_device == physical_device
                    &&& selected.queue_family < queue_flags@.len()
                    &&& takes_graphics(queue_flags@[selected.queue_family as int])
                    &&& forall|j: int|
                        0 <= j < selected.queue_family ==> !takes_graphics(#[trigger] queue_flags@[j])
                },
                None => forall|j: int|
                    0 <= j < queue_flags@.len() ==> !takes_graphics(#[trigger] queue_flags@[j]),
            },
    {
        let mut i: usize = 0;
        while i < queue_flags.len()
            invariant
                i <= queue_flags@.len(),
                queue_flags@.len() <= u32::MAX,
                forall|j: int| 0 <= j < i ==> !takes_graphics(#[trigger] queue_flags@[j]),
            decreases queue_flags@.len() - i,
        {
            if queue_flags[i] & QUEUE_GRAPHICS != 0 {
                return Some(HardwareSelection { physical_device, queue_family: i as u32 });
            }
            i = i + 1;
        }
        None
    }
}

} // verus!
