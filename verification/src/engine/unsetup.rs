//! Taking the engine down.
use super::{Engine, Object, ObjectId, MaterialId};
use crate::allocated_buffer::AllocatedBuffer;
use crate::device::{calls, CommandView, Device, DeviceCall};
use crate::pipeline::Material;
use vstd::prelude::*;

verus! {

/// The calls that release the buffers of `objects`, last object first. Before each object
/// goes, the device is made idle.
pub open spec fn objects_released(objects: Seq<(ObjectId, Object)>) -> Seq<CommandView>
    decreases objects.len(),
{
    if objects.len() == 0 {
        Seq::empty()
    } else {
        calls(seq![DeviceCall::DeviceWaitIdle]) + objects.last().1.vertices.release()
            + objects.last().1.indices.release() + objects_released(objects.drop_last())
    }
}

/// The calls that destroy the shader modules of `materials`, first material first.
pub open spec fn materials_destroyed(materials: Seq<(MaterialId, Material)>) -> Seq<CommandView>
    decreases materials.len(),
{
    if materials.len() == 0 {
        Seq::empty()
    } else {
        materials_destroyed(materials.drop_last()) + materials.last().1.teardown()
    }
}

/// The calls that release `buffers`, last buffer first.
pub open spec fn buffers_released(buffers: Seq<AllocatedBuffer>) -> Seq<CommandView>
    decreases buffers.len(),
{
    if buffers.len() == 0 {
        Seq::empty()
    } else {
        buffers.last().release() + buffers_released(buffers.drop_last())
    }
}

/// The calls that give the command buffers `buffers` back to `pool`, first to last.
pub open spec fn command_buffers_freed(pool: u64, buffers: Seq<u64>) -> Seq<CommandView> {
    Seq::new(
        buffers.len(),
        |i: int|
            CommandView::Call(
                DeviceCall::FreeCommandBuffer { command_buffer: buffers[i], pool },
            ),
    )
}

fn release_objects(device: &mut Device, objects: Vec<(ObjectId, Object)>)
    requires
        forall|i: int|
            0 <= i < objects@.len() ==> !(#[trigger] objects@[i]).1.vertices.freed()
                && !objects@[i].1.indices.freed(),
    ensures
        final(device).extends(old(device), objects_released(objects@), 0),
{
    let mut rest = objects;
    assert(device.log() + objects_released(rest@) =~= old(device).log() + objects_released(
        objects@,
    ));
    while rest.len() > 0
        invariant
            forall|i: int|
                0 <= i < rest@.len() ==> !(#[trigger] rest@[i]).1.vertices.freed()
                    && !rest@[i].1.indices.freed(),
            device.issued() == old(device).issued(),
            device.log() + objects_released(rest@) == old(device).log() + objects_released(
                objects@,
            ),
        decreases rest@.len(),
    {
        let ghost before = *device;
        let ghost remaining = rest@;
        match rest.pop() {
            Some(entry) => {
                let removed = entry.1;
                let mut vertices = removed.vertices;
                let mut indices = removed.indices;
                device.call(DeviceCall::DeviceWaitIdle);
                vertices.free(device);
                indices.free(device);
                proof {
                    assert(rest@ =~= remaining.drop_last());
                    assert(entry == remaining.last());
                    assert(device.log() + objects_released(rest@) =~= before.log()
                        + objects_released(remaining));
                }
            },
            None => {},
        }
    }
    assert(device.log() =~= device.log() + objects_released(rest@));
}

fn destroy_materials(device: &mut Device, materials: &Vec<(MaterialId, Material)>)
    requires
        forall|i: int| 0 <= i < materials@.len() ==> !(#[trigger] materials@[i]).1.freed,
    ensures
        final(device).extends(old(device), materials_destroyed(materials@), 0),
{
    let mut i: usize = 0;
    assert(device.log() =~= old(device).log() + materials_destroyed(materials@.take(0)));
    while i < materials.len()
        invariant
            i <= materials.len(),
            forall|k: int| 0 <= k < materials@.len() ==> !(#[trigger] materials@[k]).1.freed,
            device.extends(old(device), materials_destroyed(materials@.take(i as int)), 0),
        decreases materials.len() - i,
    {
        let mut material = materials[i].1;
        material.free(device);
        proof {
            assert(materials@.take(i + 1).drop_last() =~= materials@.take(i as int));
            assert(device.log() =~= old(device).log() + materials_destroyed(
                materials@.take(i + 1),
            ));
        }
        i = i + 1;
    }
    assert(materials@.take(materials.len() as int) =~= materials@);
}

fn release_buffers(device: &mut Device, buffers: Vec<AllocatedBuffer>)
    requires
        forall|i: int| 0 <= i < buffers@.len() ==> !(#[trigger] buffers@[i]).freed(),
    ensures
        final(device).extends(old(device), buffers_released(buffers@), 0),
{
    let mut rest = buffers;
    assert(device.log() + buffers_released(rest@) =~= old(device).log() + buffers_released(
        buffers@,
    ));
    while rest.len() > 0
        invariant
            forall|i: int| 0 <= i < rest@.len() ==> !(#[trigger] rest@[i]).freed(),
            device.issued() == old(device).issued(),
            device.log() + buffers_released(rest@) == old(device).log() + buffers_released(
                buffers@,
            ),
        decreases rest@.len(),
    {
        let ghost before = *device;
        let ghost remaining = rest@;
        match rest.pop() {
            Some(buffer) => {
                let mut buffer = buffer;
                buffer.free(device);
                proof {
                    assert(rest@ =~= remaining.drop_last());
                    assert(device.log() + buffers_released(rest@) =~= before.log()
                        + buffers_released(remaining));
                }
            },
            None => {},
        }
    }
    assert(device.log() =~= device.log() + buffers_released(rest@));
}

fn free_command_buffers(device: &mut Device, pool: u64, buffers: &Vec<u64>)
    ensures
        final(device).extends(old(device), command_buffers_freed(pool, buffers@), 0),
{
    let mut i: usize = 0;
    assert(device.log() =~= old(device).log() + command_buffers_freed(pool, buffers@.take(0)));
    while i < buffers.len()
        invariant
            i <= buffers.len(),
            device.extends(old(device), command_buffers_freed(pool, buffers@.take(i as int)), 0),
        decreases buffers.len() - i,
    {
        device.call(DeviceCall::FreeCommandBuffer { command_buffer: buffers[i], pool });
        assert(device.log() =~= old(device).log() + command_buffers_freed(
            pool,
            buffers@.take(i + 1),
        ));
        i = i + 1;
    }
    assert(buffers@.take(buffers.len() as int) =~= buffers@);
}

impl Engine {
    /// Every call of `free`: the objects go first, then the materials, the swapchain if there
    /// is one, the uniform buffers, the ring of synchronisation objects, the descriptor set
    /// layout and pool, the command buffers and, last, the command pool.
    pub open spec fn teardown(&self) -> Seq<CommandView> {
        objects_released(self.objects@) + materials_destroyed(self.materials@) + (
        match self.swapchain {
            Some(swapchain) => swapchain.teardown(),
            None => Seq::empty(),
        }) + buffers_released(self.realtime_ubo@) + self.frame_sync.teardown() + calls(
            seq![
                DeviceCall::DestroyDescriptorSetLayout { layout: self.descriptor_set_layout },
                DeviceCall::DestroyDescriptorPool { pool: self.descriptor_pool },
            ],
        ) + command_buffers_freed(self.command_pool, self.command_buffers@) + calls(
            seq![DeviceCall::DestroyCommandPool { pool: self.command_pool }],
        )
    }

    /// Releases everything the engine holds on the device. The engine is used up: nothing can
    /// be asked of it afterwards, and nothing it held is left unreleased.
    pub fn free(self, device: &mut Device)
        requires
            self.wf(),
        ensures
            final(device).extends(old(device), self.teardown(), 0),
    {
        let Engine {
            materials,
            objects,
            swapchain,
            frame_sync,
            command_pool,
            command_buffers,
            queue: _,
            descriptor_pool,
            descriptor_set_layout,
            descriptor_sets: _,
            realtime_ubo,
            next_material_id: _,
            next_object_id: _,
            phase: _,
            uniforms: _,
        } = self;
        release_objects(device, objects);
        destroy_materials(device, &materials);
        match swapchain {
            Some(swapchain) => {
                let mut swapchain = swapchain;
                swapchain.free(device);
            },
            None => {
                assert(device.log() =~= device.log() + Seq::<CommandView>::empty());
            },
        }
        release_buffers(device, realtime_ubo);
        let mut frame_sync = frame_sync;
        frame_sync.free(device);
        let ghost synced = *device;
        device.call(DeviceCall::DestroyDescriptorSetLayout { layout: descriptor_set_layout });
        device.call(DeviceCall::DestroyDescriptorPool { pool: descriptor_pool });
        let ghost pooled = *device;
        free_command_buffers(device, command_pool, &command_buffers);
        let ghost buffered = *device;
        device.call(DeviceCall::DestroyCommandPool { pool: command_pool });
        proof {
            assert(pooled.log() =~= synced.log() + calls(
                seq![
                    DeviceCall::DestroyDescriptorSetLayout { layout: descriptor_set_layout },
                    DeviceCall::DestroyDescriptorPool { pool: descriptor_pool },
                ],
            ));
            assert(device.log() =~= buffered.log() + calls(
                seq![DeviceCall::DestroyCommandPool { pool: command_pool }],
            ));
            assert(device.log() =~= old(device).log() + self.teardown());
        }
    }
}

} // verus!
