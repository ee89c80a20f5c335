//! A GPU buffer together with the memory behind it.
//!
//! A buffer starts out *dynamic*: in host-visible memory, where the CPU can write to it. It can
//! be promoted, once, to device-local memory; from then on it is immutable. Either way it has to
//! be freed by hand, exactly once.
use crate::device::{
    calls, BufferCreateInfo, CommandView, Device, DeviceCall, MemoryKind,
    SubmitInfo, BUFFER_USAGE_TRANSFER_DST, BUFFER_USAGE_TRANSFER_SRC,
};
use crate::error::EngineError;
use vstd::prelude::*;

verus! {

/// One buffer and the memory behind it. Whoever holds the value owns the buffer: it is not
/// copied, it is used up by `gpu_only`, and it has to be handed to `free` before it is dropped.
pub struct AllocatedBuffer {
    buffer: u64,
    create_info: BufferCreateInfo,
    dynamic: bool,
    freed: bool,
}

impl AllocatedBuffer {
    /// The name of the buffer on the device.
    pub closed spec fn handle(&self) -> u64 {
        self.buffer
    }

    /// The parameters the buffer was created with.
    pub closed spec fn info(&self) -> BufferCreateInfo {
        self.create_info
    }

    /// Whether the CPU can write to the buffer.
    pub closed spec fn dynamic(&self) -> bool {
        self.dynamic
    }

    /// Whether the buffer has been freed.
    pub closed spec fn freed(&self) -> bool {
        self.freed
    }

    /// The parameters a buffer of `count` elements of `stride` bytes is created with: the
    /// caller's, sized, and always usable as the source of a transfer.
    pub open spec fn sized(create_info: BufferCreateInfo, count: usize, stride: usize)
        -> BufferCreateInfo {
        BufferCreateInfo {
            size: (count * stride) as u64,
            usage: create_info.usage | BUFFER_USAGE_TRANSFER_SRC,
            sharing_mode: create_info.sharing_mode,
        }
    }

    /// The dynamic buffer named `buffer` that holds `count` elements of `stride` bytes.
    pub closed spec fn created(
        buffer: u64,
        create_info: BufferCreateInfo,
        count: usize,
        stride: usize,
    ) -> AllocatedBuffer {
        AllocatedBuffer {
            buffer,
            create_info: Self::sized(create_info, count, stride),
            dynamic: true,
            freed: false,
        }
    }

    /// The calls that create a dynamic buffer named `buffer`.
    pub open spec fn creation(buffer: u64, info: BufferCreateInfo) -> Seq<CommandView> {
        calls(
            seq![
                DeviceCall::CreateBuffer { buffer, info },
                DeviceCall::AllocateBufferMemory { buffer, memory: MemoryKind::Dynamic },
            ],
        )
    }

    /// Creates a dynamic buffer of `count` elements of `stride` bytes each.
    ///
    /// A request for no elements is refused before anything reaches the device.
    pub fn new(device: &mut Device, count: usize, stride: usize, create_info: BufferCreateInfo) -> (made:
        Result<AllocatedBuffer, EngineError>)
        requires
            old(device).headroom() >= 1,
            count * stride <= u64::MAX,
        ensures
            count == 0 ==> made == Err::<AllocatedBuffer, EngineError>(EngineError::InvalidArgument)
                && *final(device) == *old(device),
            count > 0 ==> made is Ok && ({
                let buffer = made->Ok_0;
                &&& buffer == Self::created(
                    (old(device).issued() + 1) as u64,
                    create_info,
                    count,
                    stride,
                )
                &&& buffer.handle() == old(device).issued() + 1
                &&& buffer.info() == Self::sized(create_info, count, stride)
                &&& buffer.dynamic()
                &&& !buffer.freed()
                &&& final(device).extends(
                    old(device),
                    Self::creation(buffer.handle(), buffer.info()),
                    1,
                )
            }),
    {
        if count == 0 {
            return Err(EngineError::InvalidArgument);
        }
        let size: u64 = (count as u64) * (stride as u64);
        let info = BufferCreateInfo {
            size,
            usage: create_info.usage | BUFFER_USAGE_TRANSFER_SRC,
            sharing_mode: create_info.sharing_mode,
        };
        let buffer = device.fresh();
        device.call(DeviceCall::CreateBuffer { buffer, info });
        device.call(DeviceCall::AllocateBufferMemory { buffer, memory: MemoryKind::Dynamic });
        proof {
            assert(device.log() =~= old(device).log() + Self::creation(buffer, info));
        }
        Ok(AllocatedBuffer { buffer, create_info: info, dynamic: true, freed: false })
    }

    /// What a write of `len` bytes to this buffer comes to.
    pub open spec fn write_outcome(&self, len: nat) -> Result<(), EngineError> {
        if !self.dynamic() {
            Err(EngineError::ImmutableBuffer)
        } else if len > self.info().size {
            Err(EngineError::InvalidArgument)
        } else {
            Ok(())
        }
    }

    /// Writes `data` to the start of the buffer: all of it, or nothing.
    ///
    /// Only a dynamic buffer takes a write, and only one that fits. The record then holds
    /// exactly the bytes given.
    pub fn map(&self, device: &mut Device, data: &[u8]) -> (written: Result<(), EngineError>)
        requires
            !self.freed(),
        ensures
            written == self.write_outcome(data@.len()),
            written is Ok ==> final(device).extends(
                old(device),
                seq![CommandView::WriteBuffer { buffer: self.handle(), bytes: data@ }],
                0,
            ),
            written is Err ==> *final(device) == *old(device),
    {
        if !self.dynamic {
            return Err(EngineError::ImmutableBuffer);
        }
        if data.len() as u64 > self.create_info.size {
            return Err(EngineError::InvalidArgument);
        }
        device.write_buffer(self.buffer, data);
        Ok(())
    }

    /// The buffer that takes the place of `self` once it is promoted and named `buffer`.
    pub closed spec fn promoted(self, buffer: u64) -> AllocatedBuffer {
        AllocatedBuffer {
            buffer,
            create_info: BufferCreateInfo {
                size: self.create_info.size,
                usage: self.create_info.usage | BUFFER_USAGE_TRANSFER_DST,
                sharing_mode: self.create_info.sharing_mode,
            },
            dynamic: false,
            freed: false,
        }
    }

    /// The calls that copy `self` into a new device-local buffer `target` through the one-shot
    /// command buffer `transfer`, wait for the copy, and release `self`.
    pub open spec fn promotion(
        self,
        target: AllocatedBuffer,
        transfer: u64,
        command_pool: u64,
        queue: u64,
    ) -> Seq<CommandView> {
        calls(
            seq![
                DeviceCall::CreateBuffer { buffer: target.handle(), info: target.info() },
                DeviceCall::AllocateBufferMemory {
                    buffer: target.handle(),
                    memory: MemoryKind::GpuOnly,
                },
                DeviceCall::AllocateCommandBuffer { command_buffer: transfer, pool: command_pool },
                DeviceCall::BeginCommandBuffer { command_buffer: transfer, one_time_submit: true },
                DeviceCall::CmdCopyBuffer {
                    command_buffer: transfer,
                    src: self.handle(),
                    dst: target.handle(),
                    size: self.info().size,
                },
                DeviceCall::EndCommandBuffer { command_buffer: transfer },
                DeviceCall::QueueSubmit {
                    queue,
                    submit: SubmitInfo {
                        command_buffer: transfer,
                        wait_semaphore: None,
                        wait_stage: 0,
                        signal_semaphore: None,
                        fence: None,
                    },
                },
                DeviceCall::QueueWaitIdle { queue },
                DeviceCall::FreeCommandBuffer { command_buffer: transfer, pool: command_pool },
            ],
        ) + self.release()
    }

    /// Moves the contents to device-local memory. The buffer given is used up: its memory is
    /// released, and the buffer returned stands in its place.
    pub fn gpu_only(self, device: &mut Device, command_pool: u64, queue: u64) -> (target:
        AllocatedBuffer)
        requires
            !self.freed(),
            old(device).headroom() >= 2,
        ensures
            target == self.promoted((old(device).issued() + 1) as u64),
            final(device).extends(
                old(device),
                self.promotion(target, (old(device).issued() + 2) as u64, command_pool, queue),
                2,
            ),
    {
        let mut source = self;
        let info = BufferCreateInfo {
            size: source.create_info.size,
            usage: source.create_info.usage | BUFFER_USAGE_TRANSFER_DST,
            sharing_mode: source.create_info.sharing_mode,
        };
        let buffer = device.fresh();
        let transfer = device.fresh();
        let target = AllocatedBuffer { buffer, create_info: info, dynamic: false, freed: false };
        device.call(DeviceCall::CreateBuffer { buffer, info });
        device.call(DeviceCall::AllocateBufferMemory { buffer, memory: MemoryKind::GpuOnly });
        device.call(DeviceCall::AllocateCommandBuffer { command_buffer: transfer, pool: command_pool });
        device.call(DeviceCall::BeginCommandBuffer { command_buffer: transfer, one_time_submit: true });
        device.call(
            DeviceCall::CmdCopyBuffer {
                command_buffer: transfer,
                src: source.buffer,
                dst: buffer,
                size: source.create_info.size,
            },
        );
        device.call(DeviceCall::EndCommandBuffer { command_buffer: transfer });
        device.call(
            DeviceCall::QueueSubmit {
                queue,
                submit: SubmitInfo {
                    command_buffer: transfer,
                    wait_semaphore: None,
                    wait_stage: 0,
                    signal_semaphore: None,
                    fence: None,
                },
            },
        );
        device.call(DeviceCall::QueueWaitIdle { queue });
        device.call(DeviceCall::FreeCommandBuffer { command_buffer: transfer, pool: command_pool });
        source.free(device);
        proof {
            assert(device.log() =~= old(device).log() + self.promotion(
                target,
                transfer,
                command_pool,
                queue,
            ));
        }
        target
    }

    /// The calls that release the buffer: nothing on the device may still be using it when its
    /// memory goes back to the allocator.
    pub open spec fn release(&self) -> Seq<CommandView> {
        calls(seq![DeviceCall::DeviceWaitIdle, DeviceCall::FreeBuffer { buffer: self.handle() }])
    }

    /// Releases the buffer and its memory. Nothing else about the value changes.
    pub fn free(&mut self, device: &mut Device)
        requires
            !old(self).freed(),
        ensures
            final(self).freed(),
            final(self).handle() == old(self).handle(),
            final(self).info() == old(self).info(),
            final(self).dynamic() == old(self).dynamic(),
            final(device).extends(old(device), old(self).release(), 0),
    {
        device.call(DeviceCall::DeviceWaitIdle);
        device.call(DeviceCall::FreeBuffer { buffer: self.buffer });
        self.freed = true;
        proof {
            assert(device.log() =~= old(device).log() + old(self).release());
        }
    }

    /// The name of the buffer on the device.
    pub fn buffer(&self) -> (buffer: u64)
        ensures
            buffer == self.handle(),
    {
        self.buffer
    }

    /// Whether the CPU can write to the buffer.
    pub fn is_dynamic(&self) -> (dynamic: bool)
        ensures
            dynamic == self.dynamic(),
    {
        self.dynamic
    }

    /// Whether the buffer has been freed. A buffer must not be dropped before it has.
    pub fn is_freed(&self) -> (freed: bool)
        ensures
            freed == self.freed(),
    {
        self.freed
    }

    /// The parameters the buffer was created with.
    pub fn create_info(&self) -> (info: BufferCreateInfo)
        ensures
            info == self.info(),
    {
        self.create_info
    }
}

/// What `created` says of the buffer it describes.
pub proof fn lemma_created_buffer(
    buffer: u64,
    create_info: BufferCreateInfo,
    count: usize,
    stride: usize,
)
    ensures
        AllocatedBuffer::created(buffer, create_info, count, stride).handle() == buffer,
        AllocatedBuffer::created(buffer, create_info, count, stride).info()
            == AllocatedBuffer::sized(create_info, count, stride),
        AllocatedBuffer::created(buffer, create_info, count, stride).dynamic(),
        !AllocatedBuffer::created(buffer, create_info, count, stride).freed(),
{
}

/// A buffer as `new` makes it takes every write that fits, up to all its elements at once; the
/// record then holds exactly the bytes written.
pub proof fn lemma_created_buffer_is_writable(
    buffer: u64,
    create_info: BufferCreateInfo,
    count: usize,
    stride: usize,
    len: nat,
)
    requires
        count * stride <= u64::MAX,
        len <= count * stride,
    ensures
        AllocatedBuffer::created(buffer, create_info, count, stride).write_outcome(len) == Ok::<
            (),
            EngineError,
        >(()),
{
}

/// A buffer that has been promoted to device-local memory refuses every write.
pub proof fn lemma_promoted_buffer_is_immutable(source: AllocatedBuffer, buffer: u64)
    ensures
        forall|len: nat| #[trigger]
            source.promoted(buffer).write_outcome(len) == Err::<(), EngineError>(
                EngineError::ImmutableBuffer,
            ),
        source.promoted(buffer).handle() == buffer,
        !source.promoted(buffer).freed(),
        !source.promoted(buffer).dynamic(),
        source.promoted(buffer).info().size == source.info().size,
        source.promoted(buffer).info().sharing_mode == source.info().sharing_mode,
        source.promoted(buffer).info().usage == source.info().usage | BUFFER_USAGE_TRANSFER_DST,
{
}

} // verus!
