//! The shape of a frame: how often it binds, how often it draws, and which fence it signals.
use crate::device::{CommandView, DeviceCall};
use crate::engine::frame::{
    material_draws, object_draw, pass_begun, pass_submitted, passes, pipeline_bound,
    pipeline_pass,
};
use crate::engine::{Engine, FramePhase, MaterialId, Object, ObjectId};
use crate::pipeline::Pipeline;
use crate::swapchain::Swapchain;
use vstd::prelude::*;

verus! {

/// How many of the commands in `log` bind a pipeline.
pub open spec fn pipeline_binds(log: Seq<CommandView>) -> nat
    decreases log.len(),
{
    if log.len() == 0 {
        0
    } else {
        pipeline_binds(log.drop_last()) + if log.last() is Call && log.last()->Call_0 is CmdBindPipeline {
            1nat
        } else {
            0nat
        }
    }
}

/// How many of the commands in `log` issue an indexed draw.
pub open spec fn indexed_draws(log: Seq<CommandView>) -> nat
    decreases log.len(),
{
    if log.len() == 0 {
        0
    } else {
        indexed_draws(log.drop_last()) + if log.last() is Call && log.last()->Call_0 is CmdDrawIndexed {
            1nat
        } else {
            0nat
        }
    }
}

/// How many of the first `n` of `objects` are drawn with `material`.
pub open spec fn users(objects: Seq<(ObjectId, Object)>, material: MaterialId, n: nat) -> nat
    decreases n,
{
    if n == 0 {
        0
    } else {
        users(objects, material, (n - 1) as nat) + if objects[n - 1].1.material == material {
            1nat
        } else {
            0nat
        }
    }
}

/// How many of the first `n` of `pipelines` belong to a material that some object is drawn
/// with.
pub open spec fn pipelines_in_use(
    pipelines: Seq<(MaterialId, Pipeline)>,
    objects: Seq<(ObjectId, Object)>,
    n: nat,
) -> nat
    decreases n,
{
    if n == 0 {
        0
    } else {
        pipelines_in_use(pipelines, objects, (n - 1) as nat) + if users(
            objects,
            pipelines[n - 1].0,
            objects.len(),
        ) > 0 {
            1nat
        } else {
            0nat
        }
    }
}

/// How many objects are drawn with the materials of the first `n` of `pipelines`, all in all.
pub open spec fn objects_drawn(
    pipelines: Seq<(MaterialId, Pipeline)>,
    objects: Seq<(ObjectId, Object)>,
    n: nat,
) -> nat
    decreases n,
{
    if n == 0 {
        0
    } else {
        objects_drawn(pipelines, objects, (n - 1) as nat) + users(
            objects,
            pipelines[n - 1].0,
            objects.len(),
        )
    }
}

/// Counting binds and draws in two logs, one after the other, is adding the counts.
pub proof fn lemma_counts_add(a: Seq<CommandView>, b: Seq<CommandView>)
    ensures
        pipeline_binds(a + b) == pipeline_binds(a) + pipeline_binds(b),
        indexed_draws(a + b) == indexed_draws(a) + indexed_draws(b),
    decreases b.len(),
{
    if b.len() == 0 {
        assert(a + b =~= a);
    } else {
        lemma_counts_add(a, b.drop_last());
        assert((a + b).drop_last() =~= a + b.drop_last());
        assert((a + b).last() == b.last());
    }
}

/// Counting binds and draws in a log of plain calls that bind no pipeline and draw nothing
/// finds none.
pub proof fn lemma_counts_none(log: Seq<CommandView>)
    requires
        forall|k: int|
            0 <= k < log.len() ==> !((#[trigger] log[k]) is Call && (log[k]->Call_0 is CmdBindPipeline
                || log[k]->Call_0 is CmdDrawIndexed)),
    ensures
        pipeline_binds(log) == 0,
        indexed_draws(log) == 0,
    decreases log.len(),
{
    if log.len() > 0 {
        assert(!(log[log.len() - 1] is Call && (log[log.len() - 1]->Call_0 is CmdBindPipeline
            || log[log.len() - 1]->Call_0 is CmdDrawIndexed)));
        assert forall|k: int| 0 <= k < log.drop_last().len() implies !((
        #[trigger] log.drop_last()[k]) is Call && (log.drop_last()[k]->Call_0 is CmdBindPipeline
            || log.drop_last()[k]->Call_0 is CmdDrawIndexed)) by {
            assert(log.drop_last()[k] == log[k]);
        }
        lemma_counts_none(log.drop_last());
    }
}

/// Drawing one object binds no pipeline and issues one draw.
pub proof fn lemma_object_draw_counts(command_buffer: u64, layout: u64, object: Object)
    ensures
        pipeline_binds(object_draw(command_buffer, layout, object)) == 0,
        indexed_draws(object_draw(command_buffer, layout, object)) == 1,
{
    let drawn = object_draw(command_buffer, layout, object);
    let head = drawn.drop_last();
    assert(drawn.len() == 4);
    assert(drawn.last() == drawn[3]);
    assert forall|k: int| 0 <= k < head.len() implies !((#[trigger] head[k]) is Call && (
    head[k]->Call_0 is CmdBindPipeline || head[k]->Call_0 is CmdDrawIndexed)) by {
        assert(head[k] == drawn[k]);
    }
    lemma_counts_none(head);
}

/// Drawing the objects of a material binds no pipeline and issues one draw per object.
pub proof fn lemma_material_draws_counts(
    command_buffer: u64,
    layout: u64,
    objects: Seq<(ObjectId, Object)>,
    material: MaterialId,
    n: nat,
)
    ensures
        pipeline_binds(material_draws(command_buffer, layout, objects, material, n)) == 0,
        indexed_draws(material_draws(command_buffer, layout, objects, material, n)) == users(
            objects,
            material,
            n,
        ),
        material_draws(command_buffer, layout, objects, material, n).len() == 4 * users(
            objects,
            material,
            n,
        ),
    decreases n,
{
    if n > 0 {
        let before = material_draws(command_buffer, layout, objects, material, (n - 1) as nat);
        lemma_material_draws_counts(command_buffer, layout, objects, material, (n - 1) as nat);
        if objects[n - 1].1.material == material {
            lemma_object_draw_counts(command_buffer, layout, objects[n - 1].1);
            lemma_counts_add(before, object_draw(command_buffer, layout, objects[n - 1].1));
        }
    }
}

/// The passes of a frame bind every pipeline that is in use once, and no other; and they issue
/// one draw for every object of every pipeline's material.
pub proof fn lemma_passes_counts(
    command_buffer: u64,
    set: u64,
    pipelines: Seq<(MaterialId, Pipeline)>,
    objects: Seq<(ObjectId, Object)>,
    n: nat,
)
    requires
        n <= pipelines.len(),
    ensures
        pipeline_binds(passes(command_buffer, set, pipelines, objects, n)) == pipelines_in_use(
            pipelines,
            objects,
            n,
        ),
        indexed_draws(passes(command_buffer, set, pipelines, objects, n)) == objects_drawn(
            pipelines,
            objects,
            n,
        ),
    decreases n,
{
    if n > 0 {
        let before = passes(command_buffer, set, pipelines, objects, (n - 1) as nat);
        lemma_passes_counts(command_buffer, set, pipelines, objects, (n - 1) as nat);
        let entry = pipelines[n - 1];
        let pass = pipeline_pass(command_buffer, set, entry, objects);
        let draws = material_draws(
            command_buffer,
            entry.1.pipeline_layout,
            objects,
            entry.0,
            objects.len(),
        );
        let bound = pipeline_bound(command_buffer, set, entry.1);
        lemma_material_draws_counts(
            command_buffer,
            entry.1.pipeline_layout,
            objects,
            entry.0,
            objects.len(),
        );
        if draws.len() == 0 {
            assert(pass =~= Seq::<CommandView>::empty());
        } else {
            let head = bound.drop_last();
            assert(bound.len() == 2);
            assert(head.drop_last() =~= Seq::<CommandView>::empty());
            assert(pipeline_binds(head.drop_last()) == 0);
            assert(indexed_draws(head.drop_last()) == 0);
            assert(head.last() == bound[0]);
            assert(bound.last() == bound[1]);
            assert(pipeline_binds(head) == 1);
            assert(indexed_draws(head) == 0);
            lemma_counts_add(bound, draws);
        }
        lemma_counts_add(before, pass);
    }
}

/// However many objects there are, a frame binds each pipeline at most once: as many binds as
/// there are pipelines in use, and one draw for every object whose material has a pipeline.
pub proof fn lemma_frame_binds_each_pipeline_once(engine: Engine, image_index: int)
    requires
        engine.wf(),
        engine.swapchain is Some,
        0 <= image_index < engine.swapchain->Some_0.images@.len(),
    ensures
        pipeline_binds(engine.frame_calls(image_index)) == pipelines_in_use(
            engine.swapchain->Some_0.pipelines@,
            engine.objects@,
            engine.swapchain->Some_0.pipelines@.len(),
        ),
        pipeline_binds(engine.frame_calls(image_index)) <= engine.swapchain->Some_0.pipelines@.len(),
        indexed_draws(engine.frame_calls(image_index)) == objects_drawn(
            engine.swapchain->Some_0.pipelines@,
            engine.objects@,
            engine.swapchain->Some_0.pipelines@.len(),
        ),
{
    let slot = engine.frame_sync.frame_idx as int;
    let frame = engine.frame_sync.slot(slot);
    let swapchain = engine.swapchain->Some_0;
    let image = swapchain.images@[image_index];
    let command_buffer = engine.command_buffers@[slot];
    let waited = Swapchain::hazard_wait(image.in_flight);
    let written = seq![
        CommandView::WriteBuffer {
            buffer: engine.realtime_ubo@[slot].handle(),
            bytes: engine.uniforms@,
        },
    ];
    let begun = pass_begun(command_buffer, swapchain, image.framebuffer);
    let drawn = passes(
        command_buffer,
        engine.descriptor_sets@[slot],
        swapchain.pipelines@,
        engine.objects@,
        swapchain.pipelines@.len(),
    );
    let submitted = pass_submitted(command_buffer, engine.queue, frame);
    lemma_counts_none(waited);
    lemma_counts_none(written);
    lemma_counts_none(begun);
    lemma_counts_none(submitted);
    lemma_passes_counts(
        command_buffer,
        engine.descriptor_sets@[slot],
        swapchain.pipelines@,
        engine.objects@,
        swapchain.pipelines@.len(),
    );
    lemma_counts_add(waited, written);
    lemma_counts_add(waited + written, begun);
    lemma_counts_add(waited + written + begun, drawn);
    lemma_counts_add(waited + written + begun + drawn, submitted);
    lemma_pipelines_in_use_bound(swapchain.pipelines@, engine.objects@, swapchain.pipelines@.len());
}

proof fn lemma_pipelines_in_use_bound(
    pipelines: Seq<(MaterialId, Pipeline)>,
    objects: Seq<(ObjectId, Object)>,
    n: nat,
)
    ensures
        pipelines_in_use(pipelines, objects, n) <= n,
    decreases n,
{
    if n > 0 {
        lemma_pipelines_in_use_bound(pipelines, objects, (n - 1) as nat);
    }
}

/// A frame signals the fence it waited for: the wait that opens a frame is for the fence of
/// the slot, and the submission that ends it resets that fence and hands it to the queue. So
/// a slot is not touched again before the frame that last took it has retired.
pub proof fn lemma_frame_signals_the_fence_it_waited_for(
    ready: Engine,
    opening: Seq<CommandView>,
    opened: Engine,
    image_index: int,
)
    requires
        ready.wf(),
        ready.swapchain is Some,
        opening == ready.slot_wait(),
        opened == (Engine {
            frame_sync: ready.frame_sync.advanced(),
            phase: FramePhase::AwaitingImage,
            ..ready
        }),
        0 <= image_index < ready.swapchain->Some_0.images@.len(),
    ensures
        ({
            let fence = opened.frame_sync.slot(opened.frame_sync.frame_idx as int).in_flight_fence;
            let drawing = opened.frame_calls(image_index);
            &&& opening == seq![CommandView::Call(DeviceCall::WaitForFence { fence })]
            &&& drawing.len() >= 2
            &&& drawing[drawing.len() - 2] == CommandView::Call(DeviceCall::ResetFence { fence })
            &&& drawing.last() matches CommandView::Call(DeviceCall::QueueSubmit { submit, .. })
            &&& submit.fence == Some(fence)
        }),
{
    let fence = opened.frame_sync.slot(opened.frame_sync.frame_idx as int).in_flight_fence;
    assert(opening =~= seq![CommandView::Call(DeviceCall::WaitForFence { fence })]);
}

} // verus!
