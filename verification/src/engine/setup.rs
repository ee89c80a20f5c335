//! Setting the engine up on a device that is ready to use.
use super::{Engine, FramePhase, UNIFORM_RANGE, UNIFORM_SIZE};
use crate::allocated_buffer::{lemma_created_buffer, AllocatedBuffer};
use crate::device::{
    calls, BufferCreateInfo, CommandView, Device, DeviceCall, BUFFER_USAGE_UNIFORM_BUFFER,
    SHARING_MODE_EXCLUSIVE,
};
use crate::error::EngineError;
use crate::frame_sync::{consecutive, FrameSync};
use vstd::prelude::*;

verus! {

/// What a uniform buffer is asked for, but for its size.
pub open spec fn uniform_buffer_info() -> BufferCreateInfo {
    BufferCreateInfo {
        size: 0,
        usage: BUFFER_USAGE_UNIFORM_BUFFER,
        sharing_mode: SHARING_MODE_EXCLUSIVE,
    }
}

/// The uniform buffer named `buffer`.
pub open spec fn uniform_buffer(buffer: int) -> AllocatedBuffer {
    AllocatedBuffer::created(buffer as u64, uniform_buffer_info(), 1, UNIFORM_SIZE)
}

/// The calls that allocate `n` command buffers from `pool`, named from `first` on.
pub open spec fn command_buffers_allocated(pool: u64, first: int, n: nat) -> Seq<CommandView> {
    Seq::new(
        n,
        |i: int|
            CommandView::Call(
                DeviceCall::AllocateCommandBuffer { command_buffer: (first + i) as u64, pool },
            ),
    )
}

/// The calls that allocate `n` descriptor sets of `layout` from `pool`, named from `first` on.
pub open spec fn descriptor_sets_allocated(pool: u64, layout: u64, first: int, n: nat) -> Seq<
    CommandView,
> {
    Seq::new(
        n,
        |i: int|
            CommandView::Call(
                DeviceCall::AllocateDescriptorSet { set: (first + i) as u64, pool, layout },
            ),
    )
}

/// The calls that create `n` uniform buffers, named from `first` on.
pub open spec fn uniform_buffers_created(first: int, n: nat) -> Seq<CommandView>
    decreases n,
{
    if n == 0 {
        Seq::empty()
    } else {
        uniform_buffers_created(first, (n - 1) as nat) + AllocatedBuffer::creation(
            (first + n - 1) as u64,
            AllocatedBuffer::sized(uniform_buffer_info(), 1, UNIFORM_SIZE),
        )
    }
}

/// The calls that point each of the `n` descriptor sets named from `first_set` on at the
/// uniform buffer of the same slot, named from `first_buffer` on.
pub open spec fn uniform_buffers_bound(first_set: int, first_buffer: int, n: nat) -> Seq<
    CommandView,
> {
    Seq::new(
        n,
        |i: int|
            CommandView::Call(
                DeviceCall::UpdateDescriptorSet {
                    set: (first_set + i) as u64,
                    buffer: (first_buffer + i) as u64,
                    range: UNIFORM_RANGE,
                },
            ),
    )
}

fn allocate_command_buffers(device: &mut Device, pool: u64, n: usize) -> (made: Vec<u64>)
    requires
        old(device).headroom() >= n,
    ensures
        made@ == consecutive(old(device).issued() + 1, n as nat),
        final(device).extends(
            old(device),
            command_buffers_allocated(pool, old(device).issued() + 1, n as nat),
            n as int,
        ),
{
    let mut made: Vec<u64> = Vec::new();
    let ghost first = old(device).issued() + 1;
    let mut i: usize = 0;
    assert(device.log() =~= old(device).log() + command_buffers_allocated(pool, first, 0));
    while i < n
        invariant
            i <= n,
            old(device).headroom() >= n,
            first == old(device).issued() + 1,
            made@ =~= consecutive(first, i as nat),
            device.extends(old(device), command_buffers_allocated(pool, first, i as nat), i as int),
        decreases n - i,
    {
        let command_buffer = device.fresh();
        device.call(DeviceCall::AllocateCommandBuffer { command_buffer, pool });
        made.push(command_buffer);
        assert(device.log() =~= old(device).log() + command_buffers_allocated(
            pool,
            first,
            (i + 1) as nat,
        ));
        i = i + 1;
    }
    made
}

fn allocate_descriptor_sets(device: &mut Device, pool: u64, layout: u64, n: usize) -> (made: Vec<
    u64,
>)
    requires
        old(device).headroom() >= n,
    ensures
        made@ == consecutive(old(device).issued() + 1, n as nat),
        final(device).extends(
            old(device),
            descriptor_sets_allocated(pool, layout, old(device).issued() + 1, n as nat),
            n as int,
        ),
{
    let mut made: Vec<u64> = Vec::new();
    let ghost first = old(device).issued() + 1;
    let mut i: usize = 0;
    assert(device.log() =~= old(device).log() + descriptor_sets_allocated(pool, layout, first, 0));
    while i < n
        invariant
            i <= n,
            old(device).headroom() >= n,
            first == old(device).issued() + 1,
            made@ =~= consecutive(first, i as nat),
            device.extends(
                old(device),
                descriptor_sets_allocated(pool, layout, first, i as nat),
                i as int,
            ),
        decreases n - i,
    {
        let set = device.fresh();
        device.call(DeviceCall::AllocateDescriptorSet { set, pool, layout });
        made.push(set);
        assert(device.log() =~= old(device).log() + descriptor_sets_allocated(
            pool,
            layout,
            first,
            (i + 1) as nat,
        ));
        i = i + 1;
    }
    made
}

fn create_uniform_buffers(device: &mut Device, n: usize) -> (made: Result<
    Vec<AllocatedBuffer>,
    EngineError,
>)
    requires
        old(device).headroom() >= n,
    ensures
        made is Ok,
        made->Ok_0@ == Seq::new(n as nat, |i: int| uniform_buffer(old(device).issued() + 1 + i)),
        final(device).extends(
            old(device),
            uniform_buffers_created(old(device).issued() + 1, n as nat),
            n as int,
        ),
{
    let mut made: Vec<AllocatedBuffer> = Vec::new();
    let ghost first = old(device).issued() + 1;
    let mut i: usize = 0;
    assert(device.log() =~= old(device).log() + uniform_buffers_created(first, 0));
    while i < n
        invariant
            i <= n,
            old(device).headroom() >= n,
            first == old(device).issued() + 1,
            made@ =~= Seq::new(i as nat, |k: int| uniform_buffer(first + k)),
            device.extends(old(device), uniform_buffers_created(first, i as nat), i as int),
        decreases n - i,
    {
        let create_info = BufferCreateInfo {
            size: 0,
            usage: BUFFER_USAGE_UNIFORM_BUFFER,
            sharing_mode: SHARING_MODE_EXCLUSIVE,
        };
        proof {
            lemma_created_buffer((first + i) as u64, create_info, 1, UNIFORM_SIZE);
        }
        let buffer = match AllocatedBuffer::new(device, 1, UNIFORM_SIZE, create_info) {
            Ok(buffer) => buffer,
            Err(error) => {
                return Err(error);
            },
        };
        made.push(buffer);
        assert(device.log() =~= old(device).log() + uniform_buffers_created(first, (i + 1) as nat));
        i = i + 1;
    }
    Ok(made)
}

fn bind_uniform_buffers(
    device: &mut Device,
    sets: &Vec<u64>,
    buffers: &Vec<AllocatedBuffer>,
    Ghost(first_set): Ghost<int>,
    Ghost(first_buffer): Ghost<int>,
)
    requires
        sets@.len() == buffers@.len(),
        sets@ == consecutive(first_set, sets@.len()),
        forall|i: int|
            0 <= i < buffers@.len() ==> (#[trigger] buffers@[i]).handle() == (first_buffer
                + i) as u64,
    ensures
        final(device).extends(
            old(device),
            uniform_buffers_bound(first_set, first_buffer, sets@.len()),
            0,
        ),
{
    let n = sets.len();
    let mut i: usize = 0;
    assert(device.log() =~= old(device).log() + uniform_buffers_bound(first_set, first_buffer, 0));
    while i < n
        invariant
            i <= n,
            n == sets@.len(),
            sets@.len() == buffers@.len(),
            sets@ == consecutive(first_set, sets@.len()),
            forall|k: int|
                0 <= k < buffers@.len() ==> (#[trigger] buffers@[k]).handle() == (first_buffer
                    + k) as u64,
            device.extends(
                old(device),
                uniform_buffers_bound(first_set, first_buffer, i as nat),
                0,
            ),
        decreases n - i,
    {
        device.call(
            DeviceCall::UpdateDescriptorSet {
                set: sets[i],
                buffer: buffers[i].buffer(),
                range: UNIFORM_RANGE,
            },
        );
        assert(device.log() =~= old(device).log() + uniform_buffers_bound(
            first_set,
            first_buffer,
            (i + 1) as nat,
        ));
        i = i + 1;
    }
}

impl Engine {
    /// Every call of `new` for `n` frame slots when `first` is the next name to give: a command
    /// buffer per slot, the descriptor set layout and pool, a descriptor set per slot, a
    /// uniform buffer per slot, each set pointed at its buffer, and the ring of synchronisation
    /// objects.
    pub open spec fn creation(command_pool: u64, first: int, n: nat) -> Seq<CommandView> {
        let layout = (first + n) as u64;
        let pool = (first + n + 1) as u64;
        command_buffers_allocated(command_pool, first, n) + calls(
            seq![
                DeviceCall::CreateDescriptorSetLayout { layout },
                DeviceCall::CreateDescriptorPool { pool, max_sets: n as u32 },
            ],
        ) + descriptor_sets_allocated(pool, layout, first + n + 2, n) + uniform_buffers_created(
            first + 2 * n + 2,
            n,
        ) + uniform_buffers_bound(first + n + 2, first + 2 * n + 2, n) + FrameSync::creation(
            first + 3 * n + 2,
            n,
        )
    }

    /// Sets up an engine for `frames_in_flight` frame slots on a device whose `queue` takes
    /// graphics work and whose `command_pool` lets command buffers be reset one by one.
    ///
    /// The engine starts without materials, objects or swapchain; the first frame builds the
    /// swapchain. A request for no slots, or for more than a descriptor pool can count, is
    /// refused before anything reaches the device.
    pub fn new(device: &mut Device, queue: u64, command_pool: u64, frames_in_flight: usize) -> (made:
        Result<Engine, EngineError>)
        requires
            old(device).headroom() >= 6 * frames_in_flight + 2,
        ensures
            made is Ok <==> 0 < frames_in_flight <= u32::MAX,
            made is Err ==> made->Err_0 == EngineError::InvalidArgument && *final(device) == *old(
                device,
            ),
            made is Ok ==> {
                let engine = made->Ok_0;
                let first = old(device).issued() + 1;
                let n = frames_in_flight as nat;
                &&& engine.wf()
                &&& engine.known_to(final(device))
                &&& engine.materials@.len() == 0
                &&& engine.objects@.len() == 0
                &&& engine.swapchain is None
                &&& engine.phase is Idle
                &&& engine.next_material_id == 0
                &&& engine.next_object_id == 0
                &&& engine.uniforms@.len() == 0
                &&& engine.queue == queue
                &&& engine.command_pool == command_pool
                &&& engine.command_buffers@ == consecutive(first, n)
                &&& engine.descriptor_set_layout == first + n
                &&& engine.descriptor_pool == first + n + 1
                &&& engine.descriptor_sets@ == consecutive(first + n + 2, n)
                &&& engine.realtime_ubo@ == Seq::new(n, |i: int| uniform_buffer(first + 2 * n + 2 + i))
                &&& engine.frame_sync.frames_in_flight == frames_in_flight
                &&& engine.frame_sync.frame_idx == 0
                &&& engine.frame_sync.image_available_semaphores@ == consecutive(first + 3 * n + 2, n)
                &&& engine.frame_sync.render_finished_semaphores@ == consecutive(first + 4 * n + 2, n)
                &&& engine.frame_sync.in_flight_fences@ == consecutive(first + 5 * n + 2, n)
                &&& final(device).extends(
                    old(device),
                    Self::creation(command_pool, first, n),
                    6 * frames_in_flight + 2,
                )
            },
    {
        if frames_in_flight == 0 || frames_in_flight > u32::MAX as usize {
            return Err(EngineError::InvalidArgument);
        }
        let ghost first = old(device).issued() + 1;
        let ghost n = frames_in_flight as nat;
        let command_buffers = allocate_command_buffers(device, command_pool, frames_in_flight);
        let descriptor_set_layout = device.fresh();
        let descriptor_pool = device.fresh();
        let ghost named = *device;
        device.call(DeviceCall::CreateDescriptorSetLayout { layout: descriptor_set_layout });
        device.call(
            DeviceCall::CreateDescriptorPool {
                pool: descriptor_pool,
                max_sets: frames_in_flight as u32,
            },
        );
        let ghost pooled = *device;
        proof {
            assert(pooled.log() =~= named.log() + calls(
                seq![
                    DeviceCall::CreateDescriptorSetLayout { layout: descriptor_set_layout },
                    DeviceCall::CreateDescriptorPool {
                        pool: descriptor_pool,
                        max_sets: frames_in_flight as u32,
                    },
                ],
            ));
        }
        let descriptor_sets = allocate_descriptor_sets(
            device,
            descriptor_pool,
            descriptor_set_layout,
            frames_in_flight,
        );
        let realtime_ubo = match create_uniform_buffers(device, frames_in_flight) {
            Ok(buffers) => buffers,
            Err(error) => {
                return Err(error);
            },
        };
        proof {
            assert forall|i: int| 0 <= i < realtime_ubo@.len() implies {
                &&& (#[trigger] realtime_ubo@[i]).handle() == (first + 2 * n + 2 + i) as u64
                &&& realtime_ubo@[i].dynamic()
                &&& !realtime_ubo@[i].freed()
                &&& realtime_ubo@[i].info().size == UNIFORM_SIZE
            } by {
                lemma_created_buffer(
                    (first + 2 * n + 2 + i) as u64,
                    uniform_buffer_info(),
                    1,
                    UNIFORM_SIZE,
                );
            }
        }
        bind_uniform_buffers(
            device,
            &descriptor_sets,
            &realtime_ubo,
            Ghost(first + n + 2),
            Ghost(first + 2 * n + 2),
        );
        let frame_sync = match FrameSync::new(device, frames_in_flight) {
            Ok(frame_sync) => frame_sync,
            Err(error) => {
                return Err(error);
            },
        };
        proof {
            assert(device.log() =~= old(device).log() + Self::creation(command_pool, first, n));
        }
        Ok(
            Engine {
                materials: Vec::new(),
                objects: Vec::new(),
                swapchain: None,
                frame_sync,
                command_pool,
                command_buffers,
                queue,
                descriptor_pool,
                descriptor_set_layout,
                descriptor_sets,
                realtime_ubo,
                next_material_id: 0,
                next_object_id: 0,
                phase: FramePhase::Idle,
                uniforms: Vec::new(),
            },
        )
    }
}

} // verus!
