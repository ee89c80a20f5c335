//! The life of a swapchain: when one is built, how long it stays, and what is left of it.
use crate::device::{CommandView, Device, DeviceCall};
use crate::engine::frame::{FrameAction, FrameEvent};
use crate::engine::{Engine, MaterialId, UNIFORM_SIZE};
use crate::error::EngineError;
use crate::pipeline::Pipeline;
use crate::swapchain::{
    images_destroyed, material_ids, pipelines_destroyed, SurfaceCapabilities, SwapChainImage,
};
use vstd::prelude::*;

verus! {

/// A run of frame steps: every state is well formed, and each follows from the one before by
/// the step that answers the event between them.
pub open spec fn is_run(
    states: Seq<Engine>,
    devices: Seq<Device>,
    events: Seq<FrameEvent>,
    results: Seq<Result<FrameAction, EngineError>>,
) -> bool {
    &&& states.len() == events.len() + 1
    &&& devices.len() == events.len() + 1
    &&& results.len() == events.len()
    &&& forall|i: int| 0 <= i < states.len() ==> (#[trigger] states[i]).wf()
    &&& forall|i: int|
        0 <= i < events.len() ==> Engine::stepped(
            states[i],
            devices[i],
            #[trigger] events[i],
            states[i + 1],
            devices[i + 1],
            results[i],
        )
}

/// Whether step `i` of a run leaves a swapchain where there was none.
pub open spec fn builds_at(states: Seq<Engine>, i: int) -> bool {
    states[i].swapchain is None && states[i + 1].swapchain is Some
}

/// A step that is not told of a stale surface keeps the swapchain it finds: the same chain of
/// images, the same render pass, the same pipelines.
pub proof fn lemma_step_keeps_swapchain(
    pre: Engine,
    pre_device: Device,
    event: FrameEvent,
    post: Engine,
    post_device: Device,
    result: Result<FrameAction, EngineError>,
)
    requires
        pre.wf(),
        Engine::stepped(pre, pre_device, event, post, post_device, result),
        !(event is Stale),
        pre.swapchain is Some,
    ensures
        post.swapchain is Some,
        post.swapchain->Some_0.swapchain == pre.swapchain->Some_0.swapchain,
        post.swapchain->Some_0.render_pass == pre.swapchain->Some_0.render_pass,
        post.swapchain->Some_0.pipelines == pre.swapchain->Some_0.pipelines,
        post.swapchain->Some_0.images@.len() == pre.swapchain->Some_0.images@.len(),
{
}

/// As long as the surface does not go stale, a swapchain that is there stays: whatever the
/// run does from step `i` on, at step `j` the swapchain is the one of step `i`.
pub proof fn lemma_swapchain_is_never_rebuilt(
    states: Seq<Engine>,
    devices: Seq<Device>,
    events: Seq<FrameEvent>,
    results: Seq<Result<FrameAction, EngineError>>,
    i: int,
    j: int,
)
    requires
        is_run(states, devices, events, results),
        forall|k: int| 0 <= k < events.len() ==> !((#[trigger] events[k]) is Stale),
        0 <= i <= j < states.len(),
        states[i].swapchain is Some,
    ensures
        states[j].swapchain is Some,
        states[j].swapchain->Some_0.swapchain == states[i].swapchain->Some_0.swapchain,
        states[j].swapchain->Some_0.pipelines == states[i].swapchain->Some_0.pipelines,
    decreases j - i,
{
    if i < j {
        lemma_swapchain_is_never_rebuilt(states, devices, events, results, i, j - 1);
        assert(!(events[j - 1] is Stale));
        assert(states[j - 1].wf());
        lemma_step_keeps_swapchain(
            states[j - 1],
            devices[j - 1],
            events[j - 1],
            states[j],
            devices[j],
            results[j - 1],
        );
    }
}

/// As long as the surface does not go stale, a swapchain is built at most once: no run has
/// two steps that build one.
pub proof fn lemma_swapchain_is_built_at_most_once(
    states: Seq<Engine>,
    devices: Seq<Device>,
    events: Seq<FrameEvent>,
    results: Seq<Result<FrameAction, EngineError>>,
    i: int,
    j: int,
)
    requires
        is_run(states, devices, events, results),
        forall|k: int| 0 <= k < events.len() ==> !((#[trigger] events[k]) is Stale),
        0 <= i < j < events.len(),
    ensures
        !(builds_at(states, i) && builds_at(states, j)),
{
    if builds_at(states, i) {
        lemma_swapchain_is_never_rebuilt(states, devices, events, results, i + 1, j);
    }
}

/// The calls that destroy pipelines destroy every one of them, in order: first the pipeline,
/// then its layout.
pub proof fn lemma_every_pipeline_is_destroyed(entries: Seq<(MaterialId, Pipeline)>, i: int)
    requires
        0 <= i < entries.len(),
    ensures
        pipelines_destroyed(entries).len() == 2 * entries.len(),
        pipelines_destroyed(entries)[2 * i] == CommandView::Call(
            DeviceCall::DestroyPipeline { pipeline: entries[i].1.pipeline },
        ),
        pipelines_destroyed(entries)[2 * i + 1] == CommandView::Call(
            DeviceCall::DestroyPipelineLayout { layout: entries[i].1.pipeline_layout },
        ),
    decreases entries.len(),
{
    lemma_pipelines_destroyed_len(entries);
    lemma_pipelines_destroyed_len(entries.drop_last());
    if i < entries.len() - 1 {
        lemma_every_pipeline_is_destroyed(entries.drop_last(), i);
    }
}

proof fn lemma_pipelines_destroyed_len(entries: Seq<(MaterialId, Pipeline)>)
    ensures
        pipelines_destroyed(entries).len() == 2 * entries.len(),
    decreases entries.len(),
{
    if entries.len() > 0 {
        lemma_pipelines_destroyed_len(entries.drop_last());
    }
}

/// The calls that destroy images destroy every one of them, in order: first the framebuffer,
/// then the view.
pub proof fn lemma_every_image_is_destroyed(images: Seq<SwapChainImage>, i: int)
    requires
        0 <= i < images.len(),
    ensures
        images_destroyed(images).len() == 2 * images.len(),
        images_destroyed(images)[2 * i] == CommandView::Call(
            DeviceCall::DestroyFramebuffer { framebuffer: images[i].framebuffer },
        ),
        images_destroyed(images)[2 * i + 1] == CommandView::Call(
            DeviceCall::DestroyImageView { view: images[i].image_view },
        ),
    decreases images.len(),
{
    lemma_images_destroyed_len(images);
    lemma_images_destroyed_len(images.drop_last());
    if i < images.len() - 1 {
        lemma_every_image_is_destroyed(images.drop_last(), i);
    }
}

proof fn lemma_images_destroyed_len(images: Seq<SwapChainImage>)
    ensures
        images_destroyed(images).len() == 2 * images.len(),
    decreases images.len(),
{
    if images.len() > 0 {
        lemma_images_destroyed_len(images.drop_last());
    }
}

/// A stale surface met while acquiring an image ends the frame without an error and leaves no
/// swapchain behind: the calls recorded are exactly those that tear the whole swapchain down.
/// The very next frame asks about the surface, builds a swapchain with one pipeline per
/// material and as many images as the new chain holds, and draws to the image it acquires.
pub proof fn lemma_stale_image_is_recovered(
    engines: Seq<Engine>,
    devices: Seq<Device>,
    results: Seq<Result<FrameAction, EngineError>>,
    uniforms: Vec<u8>,
    surface: SurfaceCapabilities,
    image_count: u32,
    image_index: u32,
)
    requires
        engines.len() == 6,
        devices.len() == 6,
        results.len() == 5,
        engines[0].wf(),
        engines[0].phase is AwaitingImage,
        uniforms@.len() <= UNIFORM_SIZE,
        image_index < image_count,
        is_run(
            engines,
            devices,
            seq![
                FrameEvent::Stale,
                FrameEvent::Requested { uniforms },
                FrameEvent::SurfaceQueried { surface },
                FrameEvent::ImagesEnumerated { image_count },
                FrameEvent::ImageAcquired { image_index },
            ],
            results,
        ),
    ensures
        results[0] == Ok::<FrameAction, EngineError>(FrameAction::Done),
        engines[1].swapchain is None,
        devices[1].extends(&devices[0], engines[0].swapchain->Some_0.teardown(), 0),
        results[1] == Ok::<FrameAction, EngineError>(FrameAction::QuerySurface),
        results[2] is Ok,
        results[3] is Ok,
        engines[4].swapchain is Some,
        engines[4].swapchain->Some_0.images@.len() == image_count,
        engines[4].swapchain->Some_0.pipeline_ids() == material_ids(engines[0].materials@),
        engines[4].swapchain->Some_0.swapchain == devices[2].issued() + 1,
        results[4] is Ok,
        results[4]->Ok_0 is Present,
        engines[5].swapchain is Some,
{
    let events = seq![
        FrameEvent::Stale,
        FrameEvent::Requested { uniforms },
        FrameEvent::SurfaceQueried { surface },
        FrameEvent::ImagesEnumerated { image_count },
        FrameEvent::ImageAcquired { image_index },
    ];
    assert(Engine::stepped(engines[0], devices[0], events[0], engines[1], devices[1], results[0]));
    assert(Engine::stepped(engines[1], devices[1], events[1], engines[2], devices[2], results[1]));
    assert(Engine::stepped(engines[2], devices[2], events[2], engines[3], devices[3], results[2]));
    assert(Engine::stepped(engines[3], devices[3], events[3], engines[4], devices[4], results[3]));
    assert(Engine::stepped(engines[4], devices[4], events[4], engines[5], devices[5], results[4]));
    assert(engines[4].wf());
    let made = engines[4].swapchain->Some_0;
    assert(made.pipeline_ids() =~= material_ids(engines[0].materials@));
}

} // verus!
