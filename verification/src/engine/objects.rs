//! Adding objects: staging their meshes and moving them to device-local memory.
use super::{
    identity, index_bytes, index_bytes_be, index_bytes_le, object_ids, Engine, Object, ObjectId,
    MaterialId, INDEX_STRIDE, ONE, VERTEX_STRIDE,
};
use crate::allocated_buffer::{lemma_created_buffer, AllocatedBuffer};
use crate::device::{
    BufferCreateInfo, CommandView, Device, BUFFER_USAGE_INDEX_BUFFER, BUFFER_USAGE_VERTEX_BUFFER,
    SHARING_MODE_EXCLUSIVE,
};
use crate::error::EngineError;
use crate::registry::{lemma_index_is, lemma_push_keeps_distinct};
use vstd::prelude::*;

verus! {

/// What a vertex buffer is asked for, but for its size.
pub open spec fn vertex_buffer_info() -> BufferCreateInfo {
    BufferCreateInfo { size: 0, usage: BUFFER_USAGE_VERTEX_BUFFER, sharing_mode: SHARING_MODE_EXCLUSIVE }
}

/// What an index buffer is asked for, but for its size.
pub open spec fn index_buffer_info() -> BufferCreateInfo {
    BufferCreateInfo { size: 0, usage: BUFFER_USAGE_INDEX_BUFFER, sharing_mode: SHARING_MODE_EXCLUSIVE }
}

/// The buffer that an upload leaves behind when `first` is the next name to give: the staging
/// buffer itself, or the device-local buffer it was promoted to.
pub open spec fn uploaded(
    first: int,
    create_info: BufferCreateInfo,
    count: usize,
    stride: usize,
    promote: bool,
) -> AllocatedBuffer {
    let staging = AllocatedBuffer::created(first as u64, create_info, count, stride);
    if promote {
        staging.promoted((first + 1) as u64)
    } else {
        staging
    }
}

/// The calls of an upload: create a dynamic buffer, write the data to it, and, if asked,
/// promote it.
pub open spec fn upload_calls(
    first: int,
    create_info: BufferCreateInfo,
    count: usize,
    stride: usize,
    data: Seq<u8>,
    promote: bool,
    command_pool: u64,
    queue: u64,
) -> Seq<CommandView> {
    let staging = AllocatedBuffer::created(first as u64, create_info, count, stride);
    let staged = AllocatedBuffer::creation(staging.handle(), staging.info()) + seq![
        CommandView::WriteBuffer { buffer: staging.handle(), bytes: data },
    ];
    if promote {
        staged + staging.promotion(
            staging.promoted((first + 1) as u64),
            (first + 2) as u64,
            command_pool,
            queue,
        )
    } else {
        staged
    }
}

/// How many objects an upload names.
pub open spec fn upload_names(promote: bool) -> int {
    if promote {
        3
    } else {
        1
    }
}

/// Whether a mesh can be added: a whole, positive number of vertices, and as many bytes of
/// index data as `n_indices` 16-bit indices take, with `n_indices` positive and small enough
/// for one draw call.
pub open spec fn mesh_accepted(vertices: Seq<u8>, index_data: Seq<u8>, n_indices: int) -> bool {
    &&& vertices.len() > 0
    &&& vertices.len() % (VERTEX_STRIDE as nat) == 0
    &&& 0 < n_indices <= u32::MAX
    &&& index_data.len() == INDEX_STRIDE * n_indices
}

fn upload(
    device: &mut Device,
    data: &[u8],
    count: usize,
    stride: usize,
    create_info: BufferCreateInfo,
    promote: bool,
    command_pool: u64,
    queue: u64,
) -> (made: Result<AllocatedBuffer, EngineError>)
    requires
        old(device).headroom() >= 3,
        count > 0,
        count * stride == data@.len(),
    ensures
        made is Ok,
        made->Ok_0 == uploaded(old(device).issued() + 1, create_info, count, stride, promote),
        !made->Ok_0.freed(),
        made->Ok_0.handle() == old(device).issued() + (if promote {
            2int
        } else {
            1int
        }),
        final(device).extends(
            old(device),
            upload_calls(
                old(device).issued() + 1,
                create_info,
                count,
                stride,
                data@,
                promote,
                command_pool,
                queue,
            ),
            upload_names(promote),
        ),
{
    proof {
        lemma_created_buffer((old(device).issued() + 1) as u64, create_info, count, stride);
    }
    let length = data.len();
    assert(count * stride == length);
    let staging = match AllocatedBuffer::new(device, count, stride, create_info) {
        Ok(staging) => staging,
        Err(error) => {
            return Err(error);
        },
    };
    match staging.map(device, data) {
        Ok(()) => {},
        Err(error) => {
            return Err(error);
        },
    }
    let ghost staged = *device;
    proof {
        assert(staged.log() =~= old(device).log() + (AllocatedBuffer::creation(
            staging.handle(),
            staging.info(),
        ) + seq![CommandView::WriteBuffer { buffer: staging.handle(), bytes: data@ }]));
    }
    if promote {
        let target = staging.gpu_only(device, command_pool, queue);
        proof {
            crate::allocated_buffer::lemma_promoted_buffer_is_immutable(
                staging,
                (old(device).issued() + 2) as u64,
            );
            assert(device.log() =~= old(device).log() + upload_calls(
                old(device).issued() + 1,
                create_info,
                count,
                stride,
                data@,
                promote,
                command_pool,
                queue,
            ));
        }
        Ok(target)
    } else {
        Ok(staging)
    }
}

impl Engine {
    /// What adding an object comes to. `pre` and `post` are the engine before and after,
    /// `pre_device` and `post_device` the device.
    ///
    /// The identifier is used up whether or not the mesh is accepted. A mesh that is not
    /// accepted changes nothing else. One that is accepted is staged and uploaded, the
    /// vertices first; the index buffer always ends in device-local memory, the vertex buffer
    /// only if the object is not dynamic. The new object comes last in the registry, with the
    /// identity as its transform.
    pub open spec fn object_added(
        pre: Engine,
        pre_device: Device,
        vertices: Seq<u8>,
        index_data: Seq<u8>,
        n_indices: int,
        material: MaterialId,
        dynamic: bool,
        post: Engine,
        post_device: Device,
        added: Result<ObjectId, EngineError>,
    ) -> bool {
        let first = pre_device.issued() + 1;
        let second = first + upload_names(!dynamic);
        let vertex_count = (vertices.len() / (VERTEX_STRIDE as nat)) as usize;
        &&& post.next_object_id == pre.next_object_id + 1
        &&& added is Ok <==> mesh_accepted(vertices, index_data, n_indices)
        &&& added is Err ==> {
            &&& added->Err_0 == EngineError::InvalidArgument
            &&& post_device == pre_device
            &&& post == (Engine { next_object_id: post.next_object_id, ..pre })
        }
        &&& added is Ok ==> {
            &&& added->Ok_0 == ObjectId(pre.next_object_id)
            &&& post == (Engine {
                objects: post.objects,
                next_object_id: post.next_object_id,
                ..pre
            })
            &&& post.objects@ == pre.objects@.push(
                (
                    added->Ok_0,
                    Object {
                        vertices: uploaded(
                            first,
                            vertex_buffer_info(),
                            vertex_count,
                            VERTEX_STRIDE,
                            !dynamic,
                        ),
                        indices: uploaded(
                            second,
                            index_buffer_info(),
                            n_indices as usize,
                            INDEX_STRIDE,
                            true,
                        ),
                        n_indices: n_indices as u32,
                        material,
                        transform: identity(),
                    },
                ),
            )
            &&& post_device.extends(
                &pre_device,
                upload_calls(
                    first,
                    vertex_buffer_info(),
                    vertex_count,
                    VERTEX_STRIDE,
                    vertices,
                    !dynamic,
                    pre.command_pool,
                    pre.queue,
                ) + upload_calls(
                    second,
                    index_buffer_info(),
                    n_indices as usize,
                    INDEX_STRIDE,
                    index_data,
                    true,
                    pre.command_pool,
                    pre.queue,
                ),
                upload_names(!dynamic) + 3,
            )
        }
    }

    /// Adds an object whose mesh is given as bytes: `vertices` holds whole vertices of
    /// `VERTEX_STRIDE` bytes, `index_data` holds `n_indices` indices of two bytes in the byte
    /// order of the machine.
    pub fn add_object_from_bytes(
        &mut self,
        device: &mut Device,
        vertices: &[u8],
        index_data: &[u8],
        n_indices: u32,
        material: MaterialId,
        dynamic: bool,
    ) -> (added: Result<ObjectId, EngineError>)
        requires
            old(self).wf(),
            old(self).known_to(old(device)),
            old(self).next_object_id < u32::MAX,
            old(device).headroom() >= 6,
        ensures
            final(self).wf(),
            final(self).known_to(final(device)),
            Self::object_added(
                *old(self),
                *old(device),
                vertices@,
                index_data@,
                n_indices as int,
                material,
                dynamic,
                *final(self),
                *final(device),
                added,
            ),
    {
        let id = ObjectId(self.next_object_id);
        self.next_object_id = self.next_object_id + 1;
        if vertices.len() == 0 || vertices.len() % VERTEX_STRIDE != 0 || n_indices == 0
            || index_data.len() as u64 != (INDEX_STRIDE as u64) * (n_indices as u64) {
            return Err(EngineError::InvalidArgument);
        }
        let vertex_count = vertices.len() / VERTEX_STRIDE;
        let command_pool = self.command_pool;
        let queue = self.queue;
        let vertex_info = BufferCreateInfo {
            size: 0,
            usage: BUFFER_USAGE_VERTEX_BUFFER,
            sharing_mode: SHARING_MODE_EXCLUSIVE,
        };
        let vertex_buffer = match upload(
            device,
            vertices,
            vertex_count,
            VERTEX_STRIDE,
            vertex_info,
            !dynamic,
            command_pool,
            queue,
        ) {
            Ok(buffer) => buffer,
            Err(error) => {
                return Err(error);
            },
        };
        let index_info = BufferCreateInfo {
            size: 0,
            usage: BUFFER_USAGE_INDEX_BUFFER,
            sharing_mode: SHARING_MODE_EXCLUSIVE,
        };
        let index_buffer = match upload(
            device,
            index_data,
            n_indices as usize,
            INDEX_STRIDE,
            index_info,
            true,
            command_pool,
            queue,
        ) {
            Ok(buffer) => buffer,
            Err(error) => {
                return Err(error);
            },
        };
        let transform: [u32; 16] = [ONE, 0, 0, 0, 0, ONE, 0, 0, 0, 0, ONE, 0, 0, 0, 0, ONE];
        let object = Object {
            indices: index_buffer,
            vertices: vertex_buffer,
            n_indices,
            material,
            transform,
        };
        self.objects.push((id, object));
        proof {
            let last = old(self).objects@.len() as int;
            assert forall|i: int| 0 <= i < self.objects@.len() implies (
            #[trigger] self.objects@[i]).1.vertices.handle() < self.objects@[i].1.indices.handle()
                && self.objects@[i].1.indices.handle() <= device.issued() by {
                if i < last {
                    assert(self.objects@[i] == old(self).objects@[i]);
                }
            }
            assert forall|i: int, j: int| 0 <= i < j < self.objects@.len() implies (
            #[trigger] self.objects@[i]).1.indices.handle() < (
            #[trigger] self.objects@[j]).1.vertices.handle() by {
                assert(self.objects@[i] == old(self).objects@[i]);
                if j < last {
                    assert(self.objects@[j] == old(self).objects@[j]);
                }
            }
            assert forall|k: int, i: int|
                0 <= k < self.realtime_ubo@.len() && 0 <= i < self.objects@.len() implies (
            #[trigger] self.realtime_ubo@[k]).handle() < (
            #[trigger] self.objects@[i]).1.vertices.handle() by {
                if i < last {
                    assert(self.objects@[i] == old(self).objects@[i]);
                }
            }
            assert(transform == identity());
            let ids = object_ids(old(self).objects@);
            assert forall|j: int| 0 <= j < ids.len() implies ids[j] != id by {
                assert(old(self).objects@[j].0.0 < id.0);
            }
            lemma_index_is(ids, id, ids.len() as int);
            assert(object_ids(self.objects@) =~= ids.push(id));
            lemma_push_keeps_distinct(ids, id);
            let first = old(device).issued() + 1;
            let second = first + upload_names(!dynamic);
            assert(device.log() =~= old(device).log() + (upload_calls(
                first,
                vertex_buffer_info(),
                vertex_count,
                VERTEX_STRIDE,
                vertices@,
                !dynamic,
                command_pool,
                queue,
            ) + upload_calls(
                second,
                index_buffer_info(),
                n_indices as usize,
                INDEX_STRIDE,
                index_data@,
                true,
                command_pool,
                queue,
            )));
        }
        Ok(id)
    }

    /// Adds an object with the mesh `vertices`, `indices`, to be drawn with `material`. The
    /// vertices are whole vertices of `VERTEX_STRIDE` bytes. A dynamic object keeps its
    /// vertices where `reupload_vertices` can reach them.
    ///
    /// The indices are written in the byte order of the machine, whichever that is.
    pub fn add_object(
        &mut self,
        device: &mut Device,
        vertices: &[u8],
        indices: &[u16],
        material: MaterialId,
        dynamic: bool,
    ) -> (added: Result<ObjectId, EngineError>)
        requires
            old(self).wf(),
            old(self).known_to(old(device)),
            old(self).next_object_id < u32::MAX,
            old(device).headroom() >= 6,
        ensures
            final(self).wf(),
            final(self).known_to(final(device)),
            Self::object_added(
                *old(self),
                *old(device),
                vertices@,
                index_bytes_le(indices@),
                indices@.len() as int,
                material,
                dynamic,
                *final(self),
                *final(device),
                added,
            ) || Self::object_added(
                *old(self),
                *old(device),
                vertices@,
                index_bytes_be(indices@),
                indices@.len() as int,
                material,
                dynamic,
                *final(self),
                *final(device),
                added,
            ),
    {
        if indices.len() > u32::MAX as usize {
            self.next_object_id = self.next_object_id + 1;
            return Err(EngineError::InvalidArgument);
        }
        let index_data = index_bytes(indices);
        self.add_object_from_bytes(
            device,
            vertices,
            index_data.as_slice(),
            indices.len() as u32,
            material,
            dynamic,
        )
    }
}

} // verus!
