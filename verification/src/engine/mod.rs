//! The engine: the registries of materials and objects, and the frame loop that draws them.
//!
//! Materials and objects outlive swapchains. Both registries keep their entries in the order
//! they were added, which is also the order of their identifiers and the order they are drawn
//! in.
pub mod check;
pub mod frame;
pub mod laws;
pub mod objects;
pub mod setup;
pub mod unsetup;

use crate::allocated_buffer::AllocatedBuffer;
use crate::device::{calls, CommandView, Device, DeviceCall, Extent2D};
use crate::error::EngineError;
use crate::frame_sync::FrameSync;
use crate::pipeline::{spv_decodable, spv_words, DrawType, Material, Pipeline};
use crate::registry::{
    distinct, index_of, lemma_index_is, lemma_index_of, lemma_push_keeps_distinct,
    lemma_remove_keeps_distinct,
};
use crate::swapchain::{material_ids, pipeline_made, Swapchain};
use vstd::prelude::*;

verus! {

/// How many frames the CPU may have submitted before it has to wait for the GPU.
pub const FRAMES_IN_FLIGHT: usize = 2;

/// Bytes of one vertex: a position and a colour of three 32-bit floats each.
pub const VERTEX_STRIDE: usize = 24;

/// Bytes of one index.
pub const INDEX_STRIDE: usize = 2;

/// Bytes of the per-frame uniforms: a 4x4 matrix of 32-bit floats, and the time.
pub const UNIFORM_SIZE: usize = 68;

/// Bytes of the uniforms that the shaders see: the matrix.
pub const UNIFORM_RANGE: u64 = 64;

/// The bit pattern of the 32-bit float 1.0.
pub const ONE: u32 = 0x3F80_0000;

/// Names a material. Identifiers grow with every material loaded and are never given twice.
#[derive(Debug, Clone, Copy, PartialEq, Eq, Hash, Structural)]
pub struct MaterialId(pub u32);

/// Names an object. Identifiers grow with every object added and are never given twice.
#[derive(Debug, Clone, Copy, PartialEq, Eq, Hash, Structural)]
pub struct ObjectId(pub u32);

/// Something to draw: a mesh in two buffers, the material to draw it with, and where to put it.
pub struct Object {
    pub indices: AllocatedBuffer,
    pub vertices: AllocatedBuffer,
    pub n_indices: u32,
    pub material: MaterialId,
    /// A 4x4 matrix of 32-bit floats, column by column, as bit patterns.
    pub transform: [u32; 16],
}

/// What the engine has asked of the host and not yet been told.
#[derive(Debug, Clone, Copy, PartialEq, Eq, Structural)]
pub enum FramePhase {
    /// Nothing: no frame is being drawn.
    Idle,
    /// What the surface is capable of.
    AwaitingSurface,
    /// How many images the new chain of images holds.
    AwaitingImages { swapchain: u64, extent: Extent2D },
    /// Which image to draw the frame to.
    AwaitingImage,
    /// Whether the frame was presented.
    AwaitingPresent,
}

/// Everything the renderer keeps between frames. The device it records on is handed to
/// every operation.
pub struct Engine {
    pub materials: Vec<(MaterialId, Material)>,
    pub objects: Vec<(ObjectId, Object)>,
    pub swapchain: Option<Swapchain>,
    pub frame_sync: FrameSync,
    pub command_pool: u64,
    pub command_buffers: Vec<u64>,
    pub queue: u64,
    pub descriptor_pool: u64,
    pub descriptor_set_layout: u64,
    pub descriptor_sets: Vec<u64>,
    pub realtime_ubo: Vec<AllocatedBuffer>,
    pub next_material_id: u32,
    pub next_object_id: u32,
    pub phase: FramePhase,
    /// The uniforms of the frame in progress.
    pub uniforms: Vec<u8>,
}

/// The identifiers of `objects`, in order.
pub open spec fn object_ids(objects: Seq<(ObjectId, Object)>) -> Seq<ObjectId> {
    Seq::new(objects.len(), |i: int| objects[i].0)
}

/// Whether the names of `buffers` grow from each to the next.
pub open spec fn names_grow(buffers: Seq<AllocatedBuffer>) -> bool {
    forall|k: int, l: int|
        0 <= k < l < buffers.len() ==> (#[trigger] buffers[k]).handle() < (
        #[trigger] buffers[l]).handle()
}

/// Whether every one of `buffers` was named before every vertex buffer of `objects`.
pub open spec fn names_precede(buffers: Seq<AllocatedBuffer>, objects: Seq<(ObjectId, Object)>) -> bool {
    forall|k: int, i: int|
        0 <= k < buffers.len() && 0 <= i < objects.len() ==> (#[trigger] buffers[k]).handle() < (
        #[trigger] objects[i]).1.vertices.handle()
}

/// Whether the buffers of `objects` have growing names: each object's vertex buffer before
/// its index buffer, and both before those of every later object.
pub open spec fn object_names_grow(objects: Seq<(ObjectId, Object)>) -> bool {
    &&& forall|i: int|
        0 <= i < objects.len() ==> (#[trigger] objects[i]).1.vertices.handle()
            < objects[i].1.indices.handle()
    &&& forall|i: int, j: int|
        0 <= i < j < objects.len() ==> (#[trigger] objects[i]).1.indices.handle() < (
        #[trigger] objects[j]).1.vertices.handle()
}

/// The identity matrix.
pub open spec fn identity() -> [u32; 16] {
    [ONE, 0, 0, 0, 0, ONE, 0, 0, 0, 0, ONE, 0, 0, 0, 0, ONE]
}

/// The bytes of `indices` with the low byte of each index first.
pub open spec fn index_bytes_le(indices: Seq<u16>) -> Seq<u8> {
    Seq::new(
        2 * indices.len(),
        |j: int|
            if j % 2 == 0 {
                (indices[j / 2] % 0x100) as u8
            } else {
                (indices[j / 2] / 0x100) as u8
            },
    )
}

/// The bytes of `indices` with the high byte of each index first.
pub open spec fn index_bytes_be(indices: Seq<u16>) -> Seq<u8> {
    Seq::new(
        2 * indices.len(),
        |j: int|
            if j % 2 == 0 {
                (indices[j / 2] / 0x100) as u8
            } else {
                (indices[j / 2] % 0x100) as u8
            },
    )
}

/// `bytemuck::cast_slice` from 16-bit indices to bytes, copied into a vector. The cast
/// reinterprets the memory of the slice, so every index becomes two bytes in the byte order of
/// the machine: low byte first or high byte first, the same for all of them. A cast to bytes
/// never fails.
#[verifier::external_body]
fn index_bytes(indices: &[u16]) -> (bytes: Vec<u8>)
    ensures
        bytes@ == index_bytes_le(indices@) || bytes@ == index_bytes_be(indices@),
{
    bytemuck::cast_slice::<u16, u8>(indices).to_vec()
}

impl Engine {
    /// The registries hold no identifier twice and none that is still to be given; nothing
    /// registered has been freed; every frame slot has its command buffer, descriptor set and
    /// uniform buffer; a live swapchain has exactly one pipeline per material; and the phase
    /// agrees with whether there is a swapchain.
    pub open spec fn wf(&self) -> bool {
        &&& self.frame_sync.wf()
        &&& !self.frame_sync.freed
        &&& self.command_buffers@.len() == self.frame_sync.frames_in_flight
        &&& self.descriptor_sets@.len() == self.frame_sync.frames_in_flight
        &&& self.realtime_ubo@.len() == self.frame_sync.frames_in_flight
        &&& forall|i: int|
            0 <= i < self.realtime_ubo@.len() ==> {
                &&& (#[trigger] self.realtime_ubo@[i]).dynamic()
                &&& !self.realtime_ubo@[i].freed()
                &&& self.realtime_ubo@[i].info().size == UNIFORM_SIZE
            }
        &&& distinct(material_ids(self.materials@))
        &&& forall|i: int|
            0 <= i < self.materials@.len() ==> {
                &&& (#[trigger] self.materials@[i]).0.0 < self.next_material_id
                &&& !self.materials@[i].1.freed
            }
        &&& distinct(object_ids(self.objects@))
        &&& forall|i: int|
            0 <= i < self.objects@.len() ==> {
                &&& (#[trigger] self.objects@[i]).0.0 < self.next_object_id
                &&& !self.objects@[i].1.vertices.freed()
                &&& !self.objects@[i].1.indices.freed()
            }
        &&& self.buffers_in_order()
        &&& self.swapchain matches Some(swapchain) ==> {
            &&& swapchain.wf()
            &&& !swapchain.freed
            &&& swapchain.pipeline_ids() == material_ids(self.materials@)
        }
        &&& (self.phase is AwaitingImage || self.phase is AwaitingPresent)
            ==> self.swapchain is Some
        &&& (self.phase is AwaitingSurface || self.phase is AwaitingImages)
            ==> self.swapchain is None
        &&& self.uniforms@.len() <= UNIFORM_SIZE
    }

    /// The buffers the engine holds have their names in the order they were created in: the
    /// uniform buffers first, then every object's vertex buffer and index buffer, object by
    /// object. No two of them share a name.
    pub open spec fn buffers_in_order(&self) -> bool {
        &&& names_grow(self.realtime_ubo@)
        &&& names_precede(self.realtime_ubo@, self.objects@)
        &&& object_names_grow(self.objects@)
    }

    /// Every buffer the engine holds was named by `device`: whatever `device` names next is
    /// none of them.
    pub open spec fn known_to(&self, device: &Device) -> bool {
        &&& forall|k: int|
            0 <= k < self.realtime_ubo@.len() ==> (#[trigger] self.realtime_ubo@[k]).handle()
                <= device.issued()
        &&& forall|i: int|
            0 <= i < self.objects@.len() ==> (#[trigger] self.objects@[i]).1.indices.handle()
                <= device.issued()
    }

    /// Whether `buffer` names one of the buffers the engine holds.
    pub open spec fn holds_buffer(&self, buffer: u64) -> bool {
        ||| exists|k: int|
            0 <= k < self.realtime_ubo@.len() && (#[trigger] self.realtime_ubo@[k]).handle()
                == buffer
        ||| exists|i: int|
            0 <= i < self.objects@.len() && ((#[trigger] self.objects@[i]).1.vertices.handle()
                == buffer || self.objects@[i].1.indices.handle() == buffer)
    }

    /// Where the material `id` is registered; the number of materials if it is not.
    pub open spec fn material_index(&self, id: MaterialId) -> int {
        index_of(material_ids(self.materials@), id)
    }

    /// Where the object `id` is registered; the number of objects if it is not.
    pub open spec fn object_index(&self, id: ObjectId) -> int {
        index_of(object_ids(self.objects@), id)
    }

    fn find_material(&self, id: MaterialId) -> (at: usize)
        ensures
            at == self.material_index(id),
            at <= self.materials@.len(),
    {
        let mut i: usize = 0;
        while i < self.materials.len()
            invariant
                i <= self.materials@.len(),
                forall|j: int| 0 <= j < i ==> material_ids(self.materials@)[j] != id,
            decreases self.materials@.len() - i,
        {
            if self.materials[i].0.0 == id.0 {
                proof {
                    lemma_index_is(material_ids(self.materials@), id, i as int);
                }
                return i;
            }
            i = i + 1;
        }
        proof {
            lemma_index_is(material_ids(self.materials@), id, i as int);
        }
        i
    }

    fn find_object(&self, id: ObjectId) -> (at: usize)
        ensures
            at == self.object_index(id),
            at <= self.objects@.len(),
    {
        let mut i: usize = 0;
        while i < self.objects.len()
            invariant
                i <= self.objects@.len(),
                forall|j: int| 0 <= j < i ==> object_ids(self.objects@)[j] != id,
            decreases self.objects@.len() - i,
        {
            if self.objects[i].0.0 == id.0 {
                proof {
                    lemma_index_is(object_ids(self.objects@), id, i as int);
                }
                return i;
            }
            i = i + 1;
        }
        proof {
            lemma_index_is(object_ids(self.objects@), id, i as int);
        }
        i
    }

    /// Tears the swapchain down, if there is one, and drops whatever frame was in progress.
    /// The next frame builds a new swapchain.
    pub fn invalidate_swapchain(&mut self, device: &mut Device)
        requires
            old(self).wf(),
        ensures
            final(self).wf(),
            final(self).swapchain is None,
            final(self).phase is Idle,
            old(self).known_to(old(device)) ==> final(self).known_to(final(device)),
            *final(self) == (Engine {
                swapchain: None,
                phase: FramePhase::Idle,
                ..*old(self)
            }),
            old(self).swapchain matches Some(swapchain) ==> final(device).extends(
                old(device),
                swapchain.teardown(),
                0,
            ),
            old(self).swapchain is None ==> *final(device) == *old(device),
    {
        match self.swapchain.take() {
            Some(swapchain) => {
                let mut swapchain = swapchain;
                swapchain.free(device);
            },
            None => {},
        }
        self.phase = FramePhase::Idle;
    }

    /// Loads a material and gives it the next identifier. If there is a swapchain, the
    /// material gets its pipeline at once.
    ///
    /// The identifier is used up even if the shaders turn out to be bad.
    pub fn load_material(
        &mut self,
        device: &mut Device,
        vertex: &[u8],
        fragment: &[u8],
        draw_type: DrawType,
    ) -> (loaded: Result<MaterialId, EngineError>)
        requires
            old(self).wf(),
            old(self).next_material_id < u32::MAX,
            old(device).headroom() >= 4,
        ensures
            final(self).wf(),
            final(self).next_material_id == old(self).next_material_id + 1,
            old(self).known_to(old(device)) ==> final(self).known_to(final(device)),
            loaded is Ok <==> spv_decodable(vertex@) && spv_decodable(fragment@),
            loaded is Err ==> {
                &&& loaded->Err_0 == EngineError::InvalidShader
                &&& *final(device) == *old(device)
                &&& *final(self) == (Engine {
                    next_material_id: final(self).next_material_id,
                    ..*old(self)
                })
            },
            loaded is Ok ==> {
                let id = loaded->Ok_0;
                let first = old(device).issued() + 1;
                let material = Material {
                    draw_type,
                    vertex: first as u64,
                    fragment: (first + 1) as u64,
                    freed: false,
                };
                let modules = seq![
                    CommandView::CreateShaderModule { module: material.vertex, code: spv_words(vertex@) },
                    CommandView::CreateShaderModule {
                        module: material.fragment,
                        code: spv_words(fragment@),
                    },
                ];
                &&& id == MaterialId(old(self).next_material_id)
                &&& final(self).materials@ == old(self).materials@.push((id, material))
                &&& *final(self) == (Engine {
                    materials: final(self).materials,
                    swapchain: final(self).swapchain,
                    next_material_id: final(self).next_material_id,
                    ..*old(self)
                })
                &&& match old(self).swapchain {
                    None => final(self).swapchain is None && final(device).extends(
                        old(device),
                        modules,
                        2,
                    ),
                    Some(before) => {
                        &&& final(self).swapchain matches Some(after)
                        &&& after.pipelines@ == before.pipelines@.push(
                            (id, pipeline_made(first + 2, 0)),
                        )
                        &&& after == (Swapchain { pipelines: after.pipelines, ..before })
                        &&& final(device).extends(
                            old(device),
                            modules + Pipeline::creation(
                                &material,
                                (first + 2) as u64,
                                (first + 3) as u64,
                                before.render_pass,
                                old(self).descriptor_set_layout,
                                before.extent,
                            ),
                            4,
                        )
                    },
                }
            },
    {
        let id = MaterialId(self.next_material_id);
        self.next_material_id = self.next_material_id + 1;
        let material = match Material::new(device, vertex, fragment, draw_type) {
            Ok(material) => material,
            Err(error) => {
                return Err(error);
            },
        };
        let descriptor_set_layout = self.descriptor_set_layout;
        proof {
            let ids = material_ids(old(self).materials@);
            assert forall|j: int| 0 <= j < ids.len() implies ids[j] != id by {
                assert(old(self).materials@[j].0.0 < id.0);
            }
            lemma_index_is(ids, id, ids.len() as int);
        }
        match &mut self.swapchain {
            Some(swapchain) => {
                swapchain.add_pipeline(device, descriptor_set_layout, id, &material);
            },
            None => {},
        }
        self.materials.push((id, material));
        proof {
            let ids = material_ids(old(self).materials@);
            assert(material_ids(self.materials@) =~= ids.push(id));
            lemma_push_keeps_distinct(ids, id);
            if old(self).swapchain is Some {
                assert(self.swapchain->Some_0.pipeline_ids() =~= ids.push(id));
                let first = old(device).issued() + 1;
                assert(device.log() =~= old(device).log() + (seq![
                    CommandView::CreateShaderModule { module: material.vertex, code: spv_words(vertex@) },
                    CommandView::CreateShaderModule {
                        module: material.fragment,
                        code: spv_words(fragment@),
                    },
                ] + Pipeline::creation(
                    &material,
                    (first + 2) as u64,
                    (first + 3) as u64,
                    old(self).swapchain->Some_0.render_pass,
                    old(self).descriptor_set_layout,
                    old(self).swapchain->Some_0.extent,
                )));
            }
        }
        Ok(id)
    }

    /// Unloads the material `material`: destroys its shader modules and, if there is a
    /// swapchain, its pipeline. Every other material keeps its pipeline. Nothing happens if no
    /// such material is loaded.
    pub fn unload_material(&mut self, device: &mut Device, material: MaterialId)
        requires
            old(self).wf(),
        ensures
            final(self).wf(),
            *final(self) == (Engine {
                materials: final(self).materials,
                swapchain: final(self).swapchain,
                ..*old(self)
            }),
            old(self).known_to(old(device)) ==> final(self).known_to(final(device)),
            old(self).material_index(material) == old(self).materials@.len() ==> {
                &&& *final(self) == *old(self)
                &&& *final(device) == *old(device)
            },
            old(self).material_index(material) < old(self).materials@.len() ==> {
                let at = old(self).material_index(material);
                &&& final(self).materials@ == old(self).materials@.remove(at)
                &&& match old(self).swapchain {
                    None => final(self).swapchain is None && final(device).extends(
                        old(device),
                        old(self).materials@[at].1.teardown(),
                        0,
                    ),
                    Some(before) => {
                        &&& final(self).swapchain matches Some(after)
                        &&& after.pipelines@ == before.pipelines@.remove(at)
                        &&& after == (Swapchain { pipelines: after.pipelines, ..before })
                        &&& final(device).extends(
                            old(device),
                            old(self).materials@[at].1.teardown() + before.pipelines@[at].1.teardown(),
                            0,
                        )
                    },
                }
            },
    {
        let at = self.find_material(material);
        if at >= self.materials.len() {
            return ;
        }
        proof {
            lemma_index_of(material_ids(self.materials@), material);
        }
        let entry = self.materials.remove(at);
        let mut unloaded = entry.1;
        unloaded.free(device);
        match &mut self.swapchain {
            Some(swapchain) => {
                swapchain.remove_pipeline(device, material);
            },
            None => {},
        }
        proof {
            let ids = material_ids(old(self).materials@);
            assert(material_ids(self.materials@) =~= ids.remove(at as int));
            lemma_remove_keeps_distinct(ids, at as int);
            if old(self).swapchain is Some {
                assert(device.log() =~= old(device).log() + (old(self).materials@[at as int].1.teardown()
                    + old(self).swapchain->Some_0.pipelines@[at as int].1.teardown()));
                assert(self.swapchain->Some_0.pipeline_ids() =~= ids.remove(at as int));
            }
        }
    }

    /// Puts the object `id` at `transform`. Nothing happens if there is no such object.
    pub fn set_transform(&mut self, id: ObjectId, transform: [u32; 16])
        ensures
            *final(self) == (Engine { objects: final(self).objects, ..*old(self) }),
            old(self).wf() ==> final(self).wf(),
            forall|device: Device| old(self).known_to(&device) ==> final(self).known_to(&device),
            old(self).object_index(id) == old(self).objects@.len() ==> final(self).objects@ == old(
                self,
            ).objects@,
            old(self).object_index(id) < old(self).objects@.len() ==> {
                let at = old(self).object_index(id);
                final(self).objects@ == old(self).objects@.update(
                    at,
                    (id, Object { transform, ..old(self).objects@[at].1 }),
                )
            },
    {
        let at = self.find_object(id);
        if at < self.objects.len() {
            proof {
                lemma_index_of(object_ids(self.objects@), id);
            }
            self.objects[at].1.transform = transform;
            proof {
                assert(object_ids(self.objects@) =~= object_ids(old(self).objects@));
                assert(self.objects@ =~= old(self).objects@.update(
                    at as int,
                    (id, Object { transform, ..old(self).objects@[at as int].1 }),
                ));
            }
        }
    }

    /// Writes new vertex data to the object `id`, which must have been added as dynamic.
    /// Nothing happens if there is no such object.
    pub fn reupload_vertices(&mut self, device: &mut Device, object: ObjectId, vertices: &[u8]) -> (written:
        Result<(), EngineError>)
        requires
            old(self).wf(),
        ensures
            *final(self) == *old(self),
            old(self).known_to(old(device)) ==> final(self).known_to(final(device)),
            old(self).object_index(object) == old(self).objects@.len() ==> written is Ok
                && *final(device) == *old(device),
            old(self).object_index(object) < old(self).objects@.len() ==> {
                let buffer = old(self).objects@[old(self).object_index(object)].1.vertices;
                &&& written == buffer.write_outcome(vertices@.len())
                &&& written is Ok ==> final(device).extends(
                    old(device),
                    seq![CommandView::WriteBuffer { buffer: buffer.handle(), bytes: vertices@ }],
                    0,
                )
                &&& written is Err ==> *final(device) == *old(device)
            },
    {
        let at = self.find_object(object);
        if at < self.objects.len() {
            self.objects[at].1.vertices.map(device, vertices)
        } else {
            Ok(())
        }
    }

    /// The calls of `remove_object`: the device is made idle before anything is released, so
    /// that no frame in flight still reads the buffers; then the vertex buffer goes, then the
    /// index buffer.
    pub open spec fn removal(&self, id: ObjectId) -> Seq<CommandView> {
        let at = self.object_index(id);
        if at < self.objects@.len() {
            calls(seq![DeviceCall::DeviceWaitIdle]) + self.objects@[at].1.vertices.release()
                + self.objects@[at].1.indices.release()
        } else {
            calls(seq![DeviceCall::DeviceWaitIdle])
        }
    }

    /// Removes the object `id` and releases its buffers, once the device is idle. If there is
    /// no such object the device is made idle all the same.
    pub fn remove_object(&mut self, device: &mut Device, id: ObjectId)
        requires
            old(self).wf(),
        ensures
            final(self).wf(),
            *final(self) == (Engine { objects: final(self).objects, ..*old(self) }),
            final(device).extends(old(device), old(self).removal(id), 0),
            old(self).known_to(old(device)) ==> final(self).known_to(final(device)),
            old(self).object_index(id) == old(self).objects@.len() ==> final(self).objects@ == old(
                self,
            ).objects@,
            old(self).object_index(id) < old(self).objects@.len() ==> final(self).objects@ == old(
                self,
            ).objects@.remove(old(self).object_index(id)),
    {
        device.call(DeviceCall::DeviceWaitIdle);
        let at = self.find_object(id);
        if at < self.objects.len() {
            let entry = self.objects.remove(at);
            let removed = entry.1;
            let mut vertices = removed.vertices;
            let mut indices = removed.indices;
            vertices.free(device);
            indices.free(device);
            proof {
                let ids = object_ids(old(self).objects@);
                assert(object_ids(self.objects@) =~= ids.remove(at as int));
                lemma_remove_keeps_distinct(ids, at as int);
                assert(device.log() =~= old(device).log() + old(self).removal(id));
            }
        } else {
            assert(device.log() =~= old(device).log() + old(self).removal(id));
        }
    }
}

} // verus!
