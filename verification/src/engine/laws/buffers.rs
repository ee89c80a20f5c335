//! The life of a buffer: nothing touches one that the engine has let go of.
use crate::allocated_buffer::AllocatedBuffer;
use crate::device::{calls, touches_buffer, CommandView, DeviceCall};
use crate::engine::frame::{
    material_draws, object_draw, pass_begun, pass_submitted, passes, pipeline_bound,
    pipeline_pass,
};
use crate::engine::unsetup::{
    buffers_released, command_buffers_freed, materials_destroyed, objects_released,
};
use crate::engine::{
    names_grow, object_ids, object_names_grow, Engine, MaterialId, Object, ObjectId,
};
use crate::pipeline::{Material, Pipeline};
use crate::registry::lemma_index_of;
use crate::swapchain::{images_destroyed, pipelines_destroyed, SwapChainImage, Swapchain};
use vstd::prelude::*;

verus! {

/// Nothing is released by `remove_object` before the device is idle: the first call waits
/// for the device, and so does the call before every release of a buffer.
pub proof fn lemma_removal_waits_for_device(engine: Engine, id: ObjectId, k: int)
    requires
        0 <= k < engine.removal(id).len(),
    ensures
        engine.removal(id)[0] == CommandView::Call(DeviceCall::DeviceWaitIdle),
        engine.removal(id)[k] matches CommandView::Call(DeviceCall::FreeBuffer { .. }) ==> k > 0
            && engine.removal(id)[k - 1] == CommandView::Call(DeviceCall::DeviceWaitIdle),
{
}

/// Drawing objects touches no buffer but the vertex and index buffers of those objects.
pub proof fn lemma_draws_touch_only_objects(
    command_buffer: u64,
    layout: u64,
    objects: Seq<(ObjectId, Object)>,
    material: MaterialId,
    n: nat,
    k: int,
    buffer: u64,
)
    requires
        n <= objects.len(),
        0 <= k < material_draws(command_buffer, layout, objects, material, n).len(),
        touches_buffer(material_draws(command_buffer, layout, objects, material, n)[k], buffer),
    ensures
        exists|i: int|
            0 <= i < n && ((#[trigger] objects[i]).1.vertices.handle() == buffer
                || objects[i].1.indices.handle() == buffer),
    decreases n,
{
    if n > 0 {
        let before = material_draws(command_buffer, layout, objects, material, (n - 1) as nat);
        if k < before.len() {
            lemma_draws_touch_only_objects(
                command_buffer,
                layout,
                objects,
                material,
                (n - 1) as nat,
                k,
                buffer,
            );
        } else {
            let drawn = object_draw(command_buffer, layout, objects[n - 1].1);
            assert(material_draws(command_buffer, layout, objects, material, n)[k] == drawn[k
                - before.len()]);
            assert(objects[n - 1].1.vertices.handle() == buffer || objects[n - 1].1.indices.handle()
                == buffer);
        }
    }
}

/// The passes of a frame touch no buffer but the vertex and index buffers of the objects.
pub proof fn lemma_passes_touch_only_objects(
    command_buffer: u64,
    set: u64,
    pipelines: Seq<(MaterialId, Pipeline)>,
    objects: Seq<(ObjectId, Object)>,
    n: nat,
    k: int,
    buffer: u64,
)
    requires
        n <= pipelines.len(),
        0 <= k < passes(command_buffer, set, pipelines, objects, n).len(),
        touches_buffer(passes(command_buffer, set, pipelines, objects, n)[k], buffer),
    ensures
        exists|i: int|
            0 <= i < objects.len() && ((#[trigger] objects[i]).1.vertices.handle() == buffer
                || objects[i].1.indices.handle() == buffer),
    decreases n,
{
    if n > 0 {
        let before = passes(command_buffer, set, pipelines, objects, (n - 1) as nat);
        if k < before.len() {
            lemma_passes_touch_only_objects(
                command_buffer,
                set,
                pipelines,
                objects,
                (n - 1) as nat,
                k,
                buffer,
            );
        } else {
            let entry = pipelines[n - 1];
            let pass = pipeline_pass(command_buffer, set, entry, objects);
            let draws = material_draws(
                command_buffer,
                entry.1.pipeline_layout,
                objects,
                entry.0,
                objects.len(),
            );
            let bound = pipeline_bound(command_buffer, set, entry.1);
            let at = k - before.len();
            assert(passes(command_buffer, set, pipelines, objects, n)[k] == pass[at]);
            assert(pass == bound + draws);
            if at >= bound.len() {
                assert(pass[at] == draws[at - bound.len()]);
                lemma_draws_touch_only_objects(
                    command_buffer,
                    entry.1.pipeline_layout,
                    objects,
                    entry.0,
                    objects.len(),
                    at - bound.len(),
                    buffer,
                );
            }
        }
    }
}

/// A frame touches no buffer that the engine does not hold: it writes the uniform buffer of
/// its slot and binds the buffers of registered objects, and that is all.
pub proof fn lemma_frame_touches_only_held_buffers(
    engine: Engine,
    image_index: int,
    k: int,
    buffer: u64,
)
    requires
        engine.wf(),
        engine.swapchain is Some,
        0 <= image_index < engine.swapchain->Some_0.images@.len(),
        0 <= k < engine.frame_calls(image_index).len(),
        touches_buffer(engine.frame_calls(image_index)[k], buffer),
    ensures
        engine.holds_buffer(buffer),
{
    let slot = engine.frame_sync.frame_idx as int;
    let frame = engine.frame_sync.slot(slot);
    let swapchain = engine.swapchain->Some_0;
    let image = swapchain.images@[image_index];
    let command_buffer = engine.command_buffers@[slot];
    let waited = Swapchain::hazard_wait(image.in_flight);
    let written = seq![
        CommandView::WriteBuffer {
            buffer: engine.realtime_ubo@[slot].handle(),
            bytes: engine.uniforms@,
        },
    ];
    let begun = pass_begun(command_buffer, swapchain, image.framebuffer);
    let drawn = passes(
        command_buffer,
        engine.descriptor_sets@[slot],
        swapchain.pipelines@,
        engine.objects@,
        swapchain.pipelines@.len(),
    );
    let submitted = pass_submitted(command_buffer, engine.queue, frame);
    let all = engine.frame_calls(image_index);
    assert(all == waited + written + begun + drawn + submitted);
    if k < waited.len() {
        assert(all[k] == waited[k]);
    } else if k < waited.len() + 1 {
        assert(all[k] == written[k - waited.len()]);
        assert(engine.realtime_ubo@[slot].handle() == buffer);
    } else if k < waited.len() + 1 + begun.len() {
        assert(all[k] == begun[k - waited.len() - 1]);
    } else if k < waited.len() + 1 + begun.len() + drawn.len() {
        let at = k - waited.len() - 1 - begun.len();
        assert(all[k] == drawn[at]);
        lemma_passes_touch_only_objects(
            command_buffer,
            engine.descriptor_sets@[slot],
            swapchain.pipelines@,
            engine.objects@,
            swapchain.pipelines@.len(),
            at,
            buffer,
        );
    } else {
        assert(all[k] == submitted[k - waited.len() - 1 - begun.len() - drawn.len()]);
    }
}

/// Once an object is removed the engine holds neither of its buffers: no other object and no
/// frame slot shares a buffer with it.
pub proof fn lemma_removed_buffers_are_not_held(pre: Engine, post: Engine, at: int, buffer: u64)
    requires
        pre.wf(),
        0 <= at < pre.objects@.len(),
        post.objects@ == pre.objects@.remove(at),
        post.realtime_ubo@ == pre.realtime_ubo@,
        buffer == pre.objects@[at].1.vertices.handle() || buffer == pre.objects@[at].1.indices.handle(),
    ensures
        !post.holds_buffer(buffer),
{
    assert forall|k: int| 0 <= k < post.realtime_ubo@.len() implies (
    #[trigger] post.realtime_ubo@[k]).handle() != buffer by {
        assert(post.realtime_ubo@[k] == pre.realtime_ubo@[k]);
        assert(pre.realtime_ubo@[k].handle() < pre.objects@[at].1.vertices.handle());
    }
    assert forall|i: int| 0 <= i < post.objects@.len() implies (
    #[trigger] post.objects@[i]).1.vertices.handle() != buffer && post.objects@[i].1.indices.handle()
        != buffer by {
        if i < at {
            assert(post.objects@[i] == pre.objects@[i]);
            assert(pre.objects@[i].1.indices.handle() < pre.objects@[at].1.vertices.handle());
        } else {
            assert(post.objects@[i] == pre.objects@[i + 1]);
            assert(pre.objects@[at].1.indices.handle() < pre.objects@[i + 1].1.vertices.handle());
        }
    }
}

/// No frame drawn after an object was removed touches the buffers that were released with it.
pub proof fn lemma_no_frame_touches_a_removed_object(
    pre: Engine,
    post: Engine,
    id: ObjectId,
    image_index: int,
    k: int,
)
    requires
        pre.wf(),
        post.wf(),
        pre.object_index(id) < pre.objects@.len(),
        post.objects@ == pre.objects@.remove(pre.object_index(id)),
        post.realtime_ubo@ == pre.realtime_ubo@,
        post.swapchain is Some,
        0 <= image_index < post.swapchain->Some_0.images@.len(),
        0 <= k < post.frame_calls(image_index).len(),
    ensures
        !touches_buffer(
            post.frame_calls(image_index)[k],
            pre.objects@[pre.object_index(id)].1.vertices.handle(),
        ),
        !touches_buffer(
            post.frame_calls(image_index)[k],
            pre.objects@[pre.object_index(id)].1.indices.handle(),
        ),
{
    let at = pre.object_index(id);
    lemma_index_of(object_ids(pre.objects@), id);
    let vertices = pre.objects@[at].1.vertices.handle();
    let indices = pre.objects@[at].1.indices.handle();
    lemma_removed_buffers_are_not_held(pre, post, at, vertices);
    lemma_removed_buffers_are_not_held(pre, post, at, indices);
    if touches_buffer(post.frame_calls(image_index)[k], vertices) {
        lemma_frame_touches_only_held_buffers(post, image_index, k, vertices);
    }
    if touches_buffer(post.frame_calls(image_index)[k], indices) {
        lemma_frame_touches_only_held_buffers(post, image_index, k, indices);
    }
}

/// How many of the commands in `log` release `buffer`.
pub open spec fn releases(log: Seq<CommandView>, buffer: u64) -> nat
    decreases log.len(),
{
    if log.len() == 0 {
        0
    } else {
        releases(log.drop_last(), buffer) + if log.last() == CommandView::Call(
            DeviceCall::FreeBuffer { buffer },
        ) {
            1nat
        } else {
            0nat
        }
    }
}

/// How many of `buffers` are named `buffer`.
pub open spec fn buffers_named(buffers: Seq<AllocatedBuffer>, buffer: u64) -> nat
    decreases buffers.len(),
{
    if buffers.len() == 0 {
        0
    } else {
        buffers_named(buffers.drop_last(), buffer) + if buffers.last().handle() == buffer {
            1nat
        } else {
            0nat
        }
    }
}

/// How many vertex and index buffers of `objects` are named `buffer`.
pub open spec fn object_buffers_named(objects: Seq<(ObjectId, Object)>, buffer: u64) -> nat
    decreases objects.len(),
{
    if objects.len() == 0 {
        0
    } else {
        object_buffers_named(objects.drop_last(), buffer) + (if objects.last().1.vertices.handle()
            == buffer {
            1nat
        } else {
            0nat
        }) + (if objects.last().1.indices.handle() == buffer {
            1nat
        } else {
            0nat
        })
    }
}

/// Counting releases in two logs, one after the other, is adding the counts.
pub proof fn lemma_releases_add(a: Seq<CommandView>, b: Seq<CommandView>, buffer: u64)
    ensures
        releases(a + b, buffer) == releases(a, buffer) + releases(b, buffer),
    decreases b.len(),
{
    if b.len() == 0 {
        assert(a + b =~= a);
    } else {
        lemma_releases_add(a, b.drop_last(), buffer);
        assert((a + b).drop_last() =~= a + b.drop_last());
        assert((a + b).last() == b.last());
    }
}

/// A log without a release of `buffer` releases it no times.
pub proof fn lemma_releases_none(log: Seq<CommandView>, buffer: u64)
    requires
        forall|k: int|
            0 <= k < log.len() ==> #[trigger] log[k] != CommandView::Call(
                DeviceCall::FreeBuffer { buffer },
            ),
    ensures
        releases(log, buffer) == 0,
    decreases log.len(),
{
    if log.len() > 0 {
        assert(log[log.len() - 1] != CommandView::Call(DeviceCall::FreeBuffer { buffer }));
        assert forall|k: int| 0 <= k < log.drop_last().len() implies #[trigger] log.drop_last()[k]
            != CommandView::Call(DeviceCall::FreeBuffer { buffer }) by {
            assert(log.drop_last()[k] == log[k]);
        }
        lemma_releases_none(log.drop_last(), buffer);
    }
}

/// Releasing a buffer releases that buffer, once, and no other.
pub proof fn lemma_release_releases_once(released: AllocatedBuffer, buffer: u64)
    ensures
        releases(released.release(), buffer) == if released.handle() == buffer {
            1nat
        } else {
            0nat
        },
{
    let log = released.release();
    assert(log.len() == 2);
    let head = log.drop_last();
    assert(head.drop_last() =~= Seq::<CommandView>::empty());
    assert(releases(head.drop_last(), buffer) == 0);
    assert(head.last() == log[0]);
    assert(releases(head, buffer) == 0);
    assert(log.last() == log[1]);
}

/// Releasing buffers releases each as often as it is among them.
pub proof fn lemma_buffers_released(buffers: Seq<AllocatedBuffer>, buffer: u64)
    ensures
        releases(buffers_released(buffers), buffer) == buffers_named(buffers, buffer),
    decreases buffers.len(),
{
    if buffers.len() > 0 {
        lemma_buffers_released(buffers.drop_last(), buffer);
        lemma_release_releases_once(buffers.last(), buffer);
        lemma_releases_add(
            buffers.last().release(),
            buffers_released(buffers.drop_last()),
            buffer,
        );
    }
}

/// Releasing objects releases each buffer as often as it is among theirs.
pub proof fn lemma_objects_released(objects: Seq<(ObjectId, Object)>, buffer: u64)
    ensures
        releases(objects_released(objects), buffer) == object_buffers_named(objects, buffer),
    decreases objects.len(),
{
    if objects.len() > 0 {
        let wait = calls(seq![DeviceCall::DeviceWaitIdle]);
        let vertices = objects.last().1.vertices.release();
        let indices = objects.last().1.indices.release();
        let rest = objects_released(objects.drop_last());
        lemma_objects_released(objects.drop_last(), buffer);
        lemma_release_releases_once(objects.last().1.vertices, buffer);
        lemma_release_releases_once(objects.last().1.indices, buffer);
        lemma_releases_none(wait, buffer);
        lemma_releases_add(wait, vertices, buffer);
        lemma_releases_add(wait + vertices, indices, buffer);
        lemma_releases_add(wait + vertices + indices, rest, buffer);
    }
}

proof fn lemma_materials_release_nothing(materials: Seq<(MaterialId, Material)>, buffer: u64)
    ensures
        releases(materials_destroyed(materials), buffer) == 0,
    decreases materials.len(),
{
    if materials.len() > 0 {
        lemma_materials_release_nothing(materials.drop_last(), buffer);
        lemma_releases_none(materials.last().1.teardown(), buffer);
        lemma_releases_add(
            materials_destroyed(materials.drop_last()),
            materials.last().1.teardown(),
            buffer,
        );
    }
}

proof fn lemma_pipelines_release_nothing(entries: Seq<(MaterialId, Pipeline)>, buffer: u64)
    ensures
        releases(pipelines_destroyed(entries), buffer) == 0,
    decreases entries.len(),
{
    if entries.len() > 0 {
        lemma_pipelines_release_nothing(entries.drop_last(), buffer);
        lemma_releases_none(entries.last().1.teardown(), buffer);
        lemma_releases_add(
            pipelines_destroyed(entries.drop_last()),
            entries.last().1.teardown(),
            buffer,
        );
    }
}

proof fn lemma_images_release_nothing(images: Seq<SwapChainImage>, buffer: u64)
    ensures
        releases(images_destroyed(images), buffer) == 0,
    decreases images.len(),
{
    if images.len() > 0 {
        lemma_images_release_nothing(images.drop_last(), buffer);
        lemma_releases_none(images.last().teardown(), buffer);
        lemma_releases_add(images_destroyed(images.drop_last()), images.last().teardown(), buffer);
    }
}

/// Tearing a swapchain down releases no buffer.
pub proof fn lemma_swapchain_releases_nothing(swapchain: Swapchain, buffer: u64)
    ensures
        releases(swapchain.teardown(), buffer) == 0,
{
    let first = calls(
        seq![
            DeviceCall::DeviceWaitIdle,
            DeviceCall::DestroyImageView { view: swapchain.depth_image_view },
            DeviceCall::FreeImage { image: swapchain.depth_image },
        ],
    );
    let pipelines = pipelines_destroyed(swapchain.pipelines@);
    let images = images_destroyed(swapchain.images@);
    let last = calls(
        seq![
            DeviceCall::DestroyRenderPass { render_pass: swapchain.render_pass },
            DeviceCall::DestroySwapchain { swapchain: swapchain.swapchain },
        ],
    );
    lemma_releases_none(first, buffer);
    lemma_pipelines_release_nothing(swapchain.pipelines@, buffer);
    lemma_images_release_nothing(swapchain.images@, buffer);
    lemma_releases_none(last, buffer);
    lemma_releases_add(first, pipelines, buffer);
    lemma_releases_add(first + pipelines, images, buffer);
    lemma_releases_add(first + pipelines + images, last, buffer);
}

/// Among buffers whose names grow, a name belongs to one buffer or to none.
pub proof fn lemma_buffers_named_once(buffers: Seq<AllocatedBuffer>, buffer: u64)
    requires
        names_grow(buffers),
    ensures
        buffers_named(buffers, buffer) == if exists|k: int|
            0 <= k < buffers.len() && (#[trigger] buffers[k]).handle() == buffer {
            1nat
        } else {
            0nat
        },
    decreases buffers.len(),
{
    if buffers.len() > 0 {
        let rest = buffers.drop_last();
        let last = buffers.len() - 1;
        assert(names_grow(rest)) by {
            assert forall|k: int, l: int| 0 <= k < l < rest.len() implies (
            #[trigger] rest[k]).handle() < (#[trigger] rest[l]).handle() by {
                assert(rest[k] == buffers[k]);
                assert(rest[l] == buffers[l]);
            }
        }
        lemma_buffers_named_once(rest, buffer);
        if buffers[last].handle() == buffer {
            assert forall|k: int| 0 <= k < rest.len() implies (#[trigger] rest[k]).handle()
                != buffer by {
                assert(rest[k] == buffers[k]);
                assert(buffers[k].handle() < buffers[last].handle());
            }
        } else if exists|k: int| 0 <= k < buffers.len() && (#[trigger] buffers[k]).handle() == buffer {
            let k = choose|k: int| 0 <= k < buffers.len() && (#[trigger] buffers[k]).handle() == buffer;
            assert(rest[k] == buffers[k]);
        } else {
            assert forall|k: int| 0 <= k < rest.len() implies (#[trigger] rest[k]).handle()
                != buffer by {
                assert(rest[k] == buffers[k]);
            }
        }
    }
}

/// Among objects whose buffers have growing names, a name belongs to one buffer or to none.
pub proof fn lemma_object_buffers_named_once(objects: Seq<(ObjectId, Object)>, buffer: u64)
    requires
        object_names_grow(objects),
    ensures
        object_buffers_named(objects, buffer) == if exists|i: int|
            0 <= i < objects.len() && ((#[trigger] objects[i]).1.vertices.handle() == buffer
                || objects[i].1.indices.handle() == buffer) {
            1nat
        } else {
            0nat
        },
    decreases objects.len(),
{
    if objects.len() > 0 {
        let rest = objects.drop_last();
        let last = objects.len() - 1;
        assert(object_names_grow(rest)) by {
            assert forall|i: int| 0 <= i < rest.len() implies (#[trigger] rest[i]).1.vertices.handle()
                < rest[i].1.indices.handle() by {
                assert(rest[i] == objects[i]);
            }
            assert forall|i: int, j: int| 0 <= i < j < rest.len() implies (
            #[trigger] rest[i]).1.indices.handle() < (#[trigger] rest[j]).1.vertices.handle() by {
                assert(rest[i] == objects[i]);
                assert(rest[j] == objects[j]);
            }
        }
        lemma_object_buffers_named_once(rest, buffer);
        assert(objects[last].1.vertices.handle() < objects[last].1.indices.handle());
        if objects[last].1.vertices.handle() == buffer || objects[last].1.indices.handle() == buffer {
            assert forall|i: int| 0 <= i < rest.len() implies !((
            #[trigger] rest[i]).1.vertices.handle() == buffer || rest[i].1.indices.handle()
                == buffer) by {
                assert(rest[i] == objects[i]);
                assert(objects[i].1.vertices.handle() < objects[i].1.indices.handle());
                assert(objects[i].1.indices.handle() < objects[last].1.vertices.handle());
            }
        } else if exists|i: int|
            0 <= i < objects.len() && ((#[trigger] objects[i]).1.vertices.handle() == buffer
                || objects[i].1.indices.handle() == buffer) {
            let i = choose|i: int|
                0 <= i < objects.len() && ((#[trigger] objects[i]).1.vertices.handle() == buffer
                    || objects[i].1.indices.handle() == buffer);
            assert(rest[i] == objects[i]);
        } else {
            assert forall|i: int| 0 <= i < rest.len() implies !((
            #[trigger] rest[i]).1.vertices.handle() == buffer || rest[i].1.indices.handle()
                == buffer) by {
                assert(rest[i] == objects[i]);
            }
        }
    }
}

/// Removing an object releases its vertex buffer once and its index buffer once, and no
/// other buffer at all.
pub proof fn lemma_removal_releases_each_buffer_once(engine: Engine, id: ObjectId, buffer: u64)
    requires
        engine.wf(),
    ensures
        releases(engine.removal(id), buffer) == if engine.object_index(id) < engine.objects@.len()
            && (engine.objects@[engine.object_index(id)].1.vertices.handle() == buffer
            || engine.objects@[engine.object_index(id)].1.indices.handle() == buffer) {
            1nat
        } else {
            0nat
        },
{
    let at = engine.object_index(id);
    let wait = calls(seq![DeviceCall::DeviceWaitIdle]);
    lemma_releases_none(wait, buffer);
    lemma_index_of(object_ids(engine.objects@), id);
    if at < engine.objects@.len() {
        let removed = engine.objects@[at].1;
        assert(removed.vertices.handle() < removed.indices.handle());
        lemma_release_releases_once(removed.vertices, buffer);
        lemma_release_releases_once(removed.indices, buffer);
        lemma_releases_add(wait, removed.vertices.release(), buffer);
        lemma_releases_add(wait + removed.vertices.release(), removed.indices.release(), buffer);
    }
}

/// Taking the engine down releases every buffer it holds, once, and no other buffer at all:
/// nothing is leaked and nothing is released twice.
pub proof fn lemma_teardown_releases_each_buffer_once(engine: Engine, buffer: u64)
    requires
        engine.wf(),
    ensures
        releases(engine.teardown(), buffer) == if engine.holds_buffer(buffer) {
            1nat
        } else {
            0nat
        },
{
    let objects = objects_released(engine.objects@);
    let materials = materials_destroyed(engine.materials@);
    let swapchain = match engine.swapchain {
        Some(swapchain) => swapchain.teardown(),
        None => Seq::empty(),
    };
    let uniforms = buffers_released(engine.realtime_ubo@);
    let sync = engine.frame_sync.teardown();
    let descriptors = calls(
        seq![
            DeviceCall::DestroyDescriptorSetLayout { layout: engine.descriptor_set_layout },
            DeviceCall::DestroyDescriptorPool { pool: engine.descriptor_pool },
        ],
    );
    let commands = command_buffers_freed(engine.command_pool, engine.command_buffers@);
    let pool = calls(seq![DeviceCall::DestroyCommandPool { pool: engine.command_pool }]);

    lemma_objects_released(engine.objects@, buffer);
    lemma_materials_release_nothing(engine.materials@, buffer);
    if engine.swapchain is Some {
        lemma_swapchain_releases_nothing(engine.swapchain->Some_0, buffer);
    } else {
        lemma_releases_none(swapchain, buffer);
    }
    lemma_buffers_released(engine.realtime_ubo@, buffer);
    lemma_releases_none(sync, buffer);
    lemma_releases_none(descriptors, buffer);
    lemma_releases_none(commands, buffer);
    lemma_releases_none(pool, buffer);
    lemma_releases_add(objects, materials, buffer);
    lemma_releases_add(objects + materials, swapchain, buffer);
    lemma_releases_add(objects + materials + swapchain, uniforms, buffer);
    lemma_releases_add(objects + materials + swapchain + uniforms, sync, buffer);
    lemma_releases_add(objects + materials + swapchain + uniforms + sync, descriptors, buffer);
    lemma_releases_add(
        objects + materials + swapchain + uniforms + sync + descriptors,
        commands,
        buffer,
    );
    lemma_releases_add(
        objects + materials + swapchain + uniforms + sync + descriptors + commands,
        pool,
        buffer,
    );

    assert(object_names_grow(engine.objects@));
    lemma_buffers_named_once(engine.realtime_ubo@, buffer);
    lemma_object_buffers_named_once(engine.objects@, buffer);
    if exists|k: int|
        0 <= k < engine.realtime_ubo@.len() && (#[trigger] engine.realtime_ubo@[k]).handle()
            == buffer {
        let k = choose|k: int|
            0 <= k < engine.realtime_ubo@.len() && (#[trigger] engine.realtime_ubo@[k]).handle()
                == buffer;
        assert forall|i: int| 0 <= i < engine.objects@.len() implies !((
        #[trigger] engine.objects@[i]).1.vertices.handle() == buffer
            || engine.objects@[i].1.indices.handle() == buffer) by {
            assert(engine.realtime_ubo@[k].handle() < engine.objects@[i].1.vertices.handle());
            assert(engine.objects@[i].1.vertices.handle() < engine.objects@[i].1.indices.handle());
        }
    }
}

} // verus!
