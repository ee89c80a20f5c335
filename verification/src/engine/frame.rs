//! Drawing a frame.
//!
//! A frame is drawn in steps, because some of what it depends on only the host can find out:
//! what the surface is capable of, which image it hands out, whether it still matches the
//! swapchain. Each step takes one such answer, records the device calls that follow from it,
//! and says what to find out next. The host carries the recorded calls out before it acts on
//! the answer of a step.
use super::{Engine, FramePhase, Object, ObjectId, MaterialId, ONE, UNIFORM_SIZE};
use crate::device::{
    calls, ClearValues, CommandView, Device, DeviceCall, SubmitInfo,
    PIPELINE_STAGE_COLOR_ATTACHMENT_OUTPUT,
};
use crate::error::EngineError;
use crate::frame_sync::Frame;
use crate::pipeline::Pipeline;
use crate::swapchain::{SurfaceCapabilities, SwapChainImage, Swapchain};
use vstd::prelude::*;

verus! {

/// What the host tells the engine.
#[derive(Debug)]
pub enum FrameEvent {
    /// A frame is wanted, with these bytes as its uniforms.
    Requested { uniforms: Vec<u8> },
    /// The surface was asked, and this is what it is capable of.
    SurfaceQueried { surface: SurfaceCapabilities },
    /// The new chain of images holds this many.
    ImagesEnumerated { image_count: u32 },
    /// The surface handed out the image with this index.
    ImageAcquired { image_index: u32 },
    /// The surface no longer matches the swapchain.
    Stale,
    /// The frame is on its way to the screen.
    Presented,
    /// The device refused a call, with this code.
    Failed { code: i32 },
}

/// What the engine asks of the host in return.
#[derive(Clone, Copy, Debug, PartialEq, Eq, Structural)]
pub enum FrameAction {
    /// Ask the surface what it is capable of; answer with `SurfaceQueried`.
    QuerySurface,
    /// Count the images of `swapchain`; answer with `ImagesEnumerated`.
    EnumerateImages { swapchain: u64 },
    /// Acquire the next image of `swapchain`, to signal `signal` when it can be drawn to;
    /// answer with `ImageAcquired`, or with `Stale`.
    AcquireImage { swapchain: u64, signal: u64 },
    /// Present image `image_index` of `swapchain` once `wait` is signalled; answer with
    /// `Presented`, or with `Stale`.
    Present { swapchain: u64, image_index: u32, wait: u64 },
    /// Nothing: the frame is over, drawn or dropped.
    Done,
}

/// What a frame clears its image to: opaque black, at the far plane.
pub open spec fn clear_values() -> ClearValues {
    ClearValues { color: [0, 0, 0, ONE], depth: ONE, stencil: 0 }
}

/// The calls that draw `object` with the pipeline layout `layout`.
pub open spec fn object_draw(command_buffer: u64, layout: u64, object: Object) -> Seq<CommandView> {
    calls(
        seq![
            DeviceCall::CmdBindVertexBuffer { command_buffer, buffer: object.vertices.handle() },
            DeviceCall::CmdBindIndexBuffer { command_buffer, buffer: object.indices.handle() },
            DeviceCall::CmdPushConstants { command_buffer, layout, matrix: object.transform },
            DeviceCall::CmdDrawIndexed { command_buffer, index_count: object.n_indices },
        ],
    )
}

/// The calls that draw those of the first `n` of `objects` that use `material`, in order.
pub open spec fn material_draws(
    command_buffer: u64,
    layout: u64,
    objects: Seq<(ObjectId, Object)>,
    material: MaterialId,
    n: nat,
) -> Seq<CommandView>
    decreases n,
{
    if n == 0 {
        Seq::empty()
    } else {
        let before = material_draws(command_buffer, layout, objects, material, (n - 1) as nat);
        if objects[n - 1].1.material == material {
            before + object_draw(command_buffer, layout, objects[n - 1].1)
        } else {
            before
        }
    }
}

/// The calls for one pipeline: nothing if no object uses its material; else the pipeline and
/// the descriptor set are bound, once, and every object that uses the material is drawn.
pub open spec fn pipeline_pass(
    command_buffer: u64,
    set: u64,
    entry: (MaterialId, Pipeline),
    objects: Seq<(ObjectId, Object)>,
) -> Seq<CommandView> {
    let draws = material_draws(
        command_buffer,
        entry.1.pipeline_layout,
        objects,
        entry.0,
        objects.len(),
    );
    if draws.len() == 0 {
        Seq::empty()
    } else {
        pipeline_bound(command_buffer, set, entry.1) + draws
    }
}

/// The calls that bind `pipeline` and, to its layout, the descriptor set `set`.
pub open spec fn pipeline_bound(command_buffer: u64, set: u64, pipeline: Pipeline) -> Seq<
    CommandView,
> {
    calls(
        seq![
            DeviceCall::CmdBindPipeline { command_buffer, pipeline: pipeline.pipeline },
            DeviceCall::CmdBindDescriptorSet {
                command_buffer,
                layout: pipeline.pipeline_layout,
                set,
            },
        ],
    )
}

/// The calls for the first `n` of `pipelines`, in order.
pub open spec fn passes(
    command_buffer: u64,
    set: u64,
    pipelines: Seq<(MaterialId, Pipeline)>,
    objects: Seq<(ObjectId, Object)>,
    n: nat,
) -> Seq<CommandView>
    decreases n,
{
    if n == 0 {
        Seq::empty()
    } else {
        passes(command_buffer, set, pipelines, objects, (n - 1) as nat) + pipeline_pass(
            command_buffer,
            set,
            pipelines[n - 1],
            objects,
        )
    }
}

/// The calls that open the command buffer and the render pass.
pub open spec fn pass_begun(
    command_buffer: u64,
    swapchain: Swapchain,
    framebuffer: u64,
) -> Seq<CommandView> {
    calls(
        seq![
            DeviceCall::ResetCommandBuffer { command_buffer },
            DeviceCall::BeginCommandBuffer { command_buffer, one_time_submit: false },
            DeviceCall::CmdBeginRenderPass {
                command_buffer,
                render_pass: swapchain.render_pass,
                framebuffer,
                extent: swapchain.extent,
                clear: clear_values(),
            },
        ],
    )
}

/// How a frame is submitted: drawing waits, at the stage that writes colour, until the image
/// is available; when it is done it signals that rendering has finished, and the fence.
pub open spec fn frame_submit(command_buffer: u64, frame: Frame) -> SubmitInfo {
    SubmitInfo {
        command_buffer,
        wait_semaphore: Some(frame.image_available),
        wait_stage: PIPELINE_STAGE_COLOR_ATTACHMENT_OUTPUT,
        signal_semaphore: Some(frame.render_finished),
        fence: Some(frame.in_flight_fence),
    }
}

/// The calls that close the render pass and the command buffer and submit it. The fence is
/// reset just before the submission that will signal it.
pub open spec fn pass_submitted(command_buffer: u64, queue: u64, frame: Frame) -> Seq<CommandView> {
    calls(
        seq![
            DeviceCall::CmdEndRenderPass { command_buffer },
            DeviceCall::EndCommandBuffer { command_buffer },
            DeviceCall::ResetFence { fence: frame.in_flight_fence },
            DeviceCall::QueueSubmit { queue, submit: frame_submit(command_buffer, frame) },
        ],
    )
}

fn record_pass(
    device: &mut Device,
    command_buffer: u64,
    set: u64,
    entry: &(MaterialId, Pipeline),
    objects: &Vec<(ObjectId, Object)>,
)
    ensures
        final(device).extends(old(device), pipeline_pass(command_buffer, set, *entry, objects@), 0),
{
    let material = entry.0;
    let pipeline = entry.1;
    let layout = pipeline.pipeline_layout;
    let mut bound = false;
    let mut i: usize = 0;
    assert(device.log() =~= old(device).log() + Seq::<CommandView>::empty());
    while i < objects.len()
        invariant
            i <= objects.len(),
            material == entry.0,
            pipeline == entry.1,
            layout == pipeline.pipeline_layout,
            bound <==> material_draws(command_buffer, layout, objects@, material, i as nat).len()
                > 0,
            device.extends(
                old(device),
                if bound {
                    pipeline_bound(command_buffer, set, pipeline) + material_draws(
                        command_buffer,
                        layout,
                        objects@,
                        material,
                        i as nat,
                    )
                } else {
                    Seq::empty()
                },
                0,
            ),
        decreases objects.len() - i,
    {
        let ghost drawn = material_draws(command_buffer, layout, objects@, material, i as nat);
        if objects[i].1.material.0 == material.0 {
            if !bound {
                device.call(DeviceCall::CmdBindPipeline { command_buffer, pipeline: pipeline.pipeline });
                device.call(DeviceCall::CmdBindDescriptorSet { command_buffer, layout, set });
                bound = true;
                assert(drawn =~= Seq::<CommandView>::empty());
            }
            let object = &objects[i].1;
            device.call(
                DeviceCall::CmdBindVertexBuffer { command_buffer, buffer: object.vertices.buffer() },
            );
            device.call(
                DeviceCall::CmdBindIndexBuffer { command_buffer, buffer: object.indices.buffer() },
            );
            device.call(
                DeviceCall::CmdPushConstants { command_buffer, layout, matrix: object.transform },
            );
            device.call(DeviceCall::CmdDrawIndexed { command_buffer, index_count: object.n_indices });
            proof {
                let more = material_draws(command_buffer, layout, objects@, material, (i + 1) as nat);
                assert(more == drawn + object_draw(command_buffer, layout, objects@[i as int].1));
                assert(device.log() =~= old(device).log() + (pipeline_bound(
                    command_buffer,
                    set,
                    pipeline,
                ) + more));
            }
        }
        i = i + 1;
    }
}

fn record_passes(
    device: &mut Device,
    command_buffer: u64,
    set: u64,
    pipelines: &Vec<(MaterialId, Pipeline)>,
    objects: &Vec<(ObjectId, Object)>,
)
    ensures
        final(device).extends(
            old(device),
            passes(command_buffer, set, pipelines@, objects@, pipelines@.len()),
            0,
        ),
{
    let mut i: usize = 0;
    assert(device.log() =~= old(device).log() + passes(command_buffer, set, pipelines@, objects@, 0));
    while i < pipelines.len()
        invariant
            i <= pipelines.len(),
            device.extends(
                old(device),
                passes(command_buffer, set, pipelines@, objects@, i as nat),
                0,
            ),
        decreases pipelines.len() - i,
    {
        record_pass(device, command_buffer, set, &pipelines[i], objects);
        assert(device.log() =~= old(device).log() + passes(
            command_buffer,
            set,
            pipelines@,
            objects@,
            (i + 1) as nat,
        ));
        i = i + 1;
    }
}

impl Engine {
    /// The slot that the next frame takes.
    pub open spec fn next_slot(&self) -> int {
        (self.frame_sync.frame_idx + 1) % (self.frame_sync.frames_in_flight as int)
    }

    /// The wait that opens a frame: until the frame that last used the slot has retired, its
    /// uniform buffer and command buffer are not to be touched.
    pub open spec fn slot_wait(&self) -> Seq<CommandView> {
        calls(
            seq![
                DeviceCall::WaitForFence {
                    fence: self.frame_sync.slot(self.next_slot()).in_flight_fence,
                },
            ],
        )
    }

    /// The request for an image of `swapchain` for the next frame.
    pub open spec fn acquire(&self, swapchain: u64) -> FrameAction {
        FrameAction::AcquireImage {
            swapchain,
            signal: self.frame_sync.slot(self.next_slot()).image_available,
        }
    }

    /// The calls that draw the frame in progress to image `image_index` and submit it: wait
    /// for the image's last writer, write the uniforms, record the command buffer, submit.
    pub open spec fn frame_calls(&self, image_index: int) -> Seq<CommandView> {
        let slot = self.frame_sync.frame_idx as int;
        let frame = self.frame_sync.slot(slot);
        let swapchain = self.swapchain->Some_0;
        let image = swapchain.images@[image_index];
        let command_buffer = self.command_buffers@[slot];
        Swapchain::hazard_wait(image.in_flight) + seq![
            CommandView::WriteBuffer {
                buffer: self.realtime_ubo@[slot].handle(),
                bytes: self.uniforms@,
            },
        ] + pass_begun(command_buffer, swapchain, image.framebuffer) + passes(
            command_buffer,
            self.descriptor_sets@[slot],
            swapchain.pipelines@,
            self.objects@,
            swapchain.pipelines@.len(),
        ) + pass_submitted(command_buffer, self.queue, frame)
    }

    /// How many objects a step names.
    pub open spec fn names_needed(&self, event: FrameEvent) -> int {
        match event {
            FrameEvent::SurfaceQueried { .. } => 1,
            FrameEvent::ImagesEnumerated { image_count } => 3 * image_count + 3 + 2
                * self.materials@.len(),
            _ => 0,
        }
    }

    /// The frame was given up: the engine is idle again, and nothing else has changed. Nothing
    /// is recorded either: a chain of images that was asked for and not yet built around is
    /// the host's to destroy.
    pub open spec fn aborted(pre: Engine, pre_device: Device, post: Engine, post_device: Device) -> bool {
        &&& post == (Engine { phase: FramePhase::Idle, ..pre })
        &&& post_device == pre_device
    }

    /// A frame was opened on the engine `ready`: the cursor moved to the next slot, the wait
    /// for that slot was recorded after `built`, and an image is asked for.
    pub open spec fn opened(
        ready: Engine,
        pre_device: Device,
        built: Seq<CommandView>,
        named: int,
        post: Engine,
        post_device: Device,
        result: Result<FrameAction, EngineError>,
    ) -> bool {
        &&& post == (Engine {
            frame_sync: ready.frame_sync.advanced(),
            phase: FramePhase::AwaitingImage,
            ..ready
        })
        &&& post_device.extends(&pre_device, built + ready.slot_wait(), named)
        &&& result == Ok::<FrameAction, EngineError>(ready.acquire(ready.swapchain->Some_0.swapchain))
    }

    /// What a step comes to. `pre` and `post` are the engine before and after, `pre_device`
    /// and `post_device` the device.
    ///
    /// - A failure reported by the host is surfaced, whatever the engine was waiting for.
    /// - A request for a frame, when idle, keeps the uniforms. With a swapchain it opens the
    ///   frame; without, it asks about the surface first.
    /// - What the surface is capable of decides the chain of images that is asked for.
    /// - The number of images in the chain lets the swapchain be built, and the frame opened.
    /// - An acquired image is drawn to and submitted, and its presentation is asked for.
    /// - A stale surface, on acquiring or presenting, tears the swapchain down and ends the
    ///   frame without an error.
    /// - A presented frame ends the frame.
    /// - Anything else is an error that gives the frame up.
    pub open spec fn stepped(
        pre: Engine,
        pre_device: Device,
        event: FrameEvent,
        post: Engine,
        post_device: Device,
        result: Result<FrameAction, EngineError>,
    ) -> bool {
        match event {
            FrameEvent::Failed { code } => {
                &&& Self::aborted(pre, pre_device, post, post_device)
                &&& result == Err::<FrameAction, EngineError>(EngineError::DeviceError(code))
            },
            FrameEvent::Requested { uniforms } => {
                if !(pre.phase is Idle) {
                    &&& Self::aborted(pre, pre_device, post, post_device)
                    &&& result == Err::<FrameAction, EngineError>(EngineError::UnexpectedEvent)
                } else if uniforms@.len() > UNIFORM_SIZE {
                    &&& Self::aborted(pre, pre_device, post, post_device)
                    &&& result == Err::<FrameAction, EngineError>(EngineError::InvalidArgument)
                } else if pre.swapchain is None {
                    &&& post.uniforms@ == uniforms@
                    &&& post == (Engine {
                        uniforms: post.uniforms,
                        phase: FramePhase::AwaitingSurface,
                        ..pre
                    })
                    &&& post_device == pre_device
                    &&& result == Ok::<FrameAction, EngineError>(FrameAction::QuerySurface)
                } else {
                    &&& post.uniforms@ == uniforms@
                    &&& Self::opened(
                        Engine { uniforms: post.uniforms, ..pre },
                        pre_device,
                        Seq::empty(),
                        0,
                        post,
                        post_device,
                        result,
                    )
                }
            },
            FrameEvent::SurfaceQueried { surface } => {
                if !(pre.phase is AwaitingSurface) {
                    &&& Self::aborted(pre, pre_device, post, post_device)
                    &&& result == Err::<FrameAction, EngineError>(EngineError::UnexpectedEvent)
                } else {
                    let swapchain = (pre_device.issued() + 1) as u64;
                    &&& post == (Engine {
                        phase: FramePhase::AwaitingImages { swapchain, extent: surface.extent },
                        ..pre
                    })
                    &&& post_device.extends(
                        &pre_device,
                        calls(
                            seq![
                                DeviceCall::CreateSwapchain {
                                    swapchain,
                                    info: Swapchain::chain_info(&surface),
                                },
                            ],
                        ),
                        1,
                    )
                    &&& result == Ok::<FrameAction, EngineError>(
                        FrameAction::EnumerateImages { swapchain },
                    )
                }
            },
            FrameEvent::ImagesEnumerated { image_count } => {
                match pre.phase {
                    FramePhase::AwaitingImages { swapchain, extent } => {
                        &&& post.swapchain matches Some(made)
                        &&& made.built(
                            swapchain,
                            extent,
                            image_count as nat,
                            pre.materials@,
                            pre_device.issued() + 1,
                        )
                        &&& Self::opened(
                            Engine { swapchain: post.swapchain, ..pre },
                            pre_device,
                            Swapchain::creation(
                                swapchain,
                                extent,
                                image_count as nat,
                                pre.descriptor_set_layout,
                                pre.materials@,
                                pre_device.issued() + 1,
                            ),
                            pre.names_needed(event),
                            post,
                            post_device,
                            result,
                        )
                    },
                    _ => {
                        &&& Self::aborted(pre, pre_device, post, post_device)
                        &&& result == Err::<FrameAction, EngineError>(EngineError::UnexpectedEvent)
                    },
                }
            },
            FrameEvent::ImageAcquired { image_index } => {
                if !(pre.phase is AwaitingImage) {
                    &&& Self::aborted(pre, pre_device, post, post_device)
                    &&& result == Err::<FrameAction, EngineError>(EngineError::UnexpectedEvent)
                } else if image_index >= pre.swapchain->Some_0.images@.len() {
                    &&& Self::aborted(pre, pre_device, post, post_device)
                    &&& result == Err::<FrameAction, EngineError>(EngineError::InvalidArgument)
                } else {
                    let before = pre.swapchain->Some_0;
                    let frame = pre.frame_sync.slot(pre.frame_sync.frame_idx as int);
                    &&& post.swapchain matches Some(after)
                    &&& after.images@ == before.images@.update(
                        image_index as int,
                        SwapChainImage {
                            in_flight: frame.in_flight_fence,
                            ..before.images@[image_index as int]
                        },
                    )
                    &&& after == (Swapchain { images: after.images, ..before })
                    &&& post == (Engine {
                        swapchain: post.swapchain,
                        phase: FramePhase::AwaitingPresent,
                        ..pre
                    })
                    &&& post_device.extends(&pre_device, pre.frame_calls(image_index as int), 0)
                    &&& result == Ok::<FrameAction, EngineError>(
                        FrameAction::Present {
                            swapchain: before.swapchain,
                            image_index,
                            wait: frame.render_finished,
                        },
                    )
                }
            },
            FrameEvent::Stale => {
                if pre.phase is AwaitingImage || pre.phase is AwaitingPresent {
                    &&& post == (Engine { swapchain: None, phase: FramePhase::Idle, ..pre })
                    &&& post_device.extends(&pre_device, pre.swapchain->Some_0.teardown(), 0)
                    &&& result == Ok::<FrameAction, EngineError>(FrameAction::Done)
                } else {
                    &&& Self::aborted(pre, pre_device, post, post_device)
                    &&& result == Err::<FrameAction, EngineError>(EngineError::UnexpectedEvent)
                }
            },
            FrameEvent::Presented => {
                &&& Self::aborted(pre, pre_device, post, post_device)
                &&& result == if pre.phase is AwaitingPresent {
                    Ok::<FrameAction, EngineError>(FrameAction::Done)
                } else {
                    Err::<FrameAction, EngineError>(EngineError::UnexpectedEvent)
                }
            },
        }
    }

    fn open_frame(&mut self, device: &mut Device, Ghost(built): Ghost<Seq<CommandView>>, Ghost(
        named,
    ): Ghost<int>, Ghost(pre_device): Ghost<Device>) -> (result: Result<FrameAction, EngineError>)
        requires
            old(self).wf(),
            old(self).swapchain is Some,
            old(device).extends(&pre_device, built, named),
        ensures
            final(self).wf(),
            Self::opened(*old(self), pre_device, built, named, *final(self), *final(device), result),
    {
        let swapchain = match &self.swapchain {
            Some(swapchain) => swapchain.swapchain,
            None => 0,
        };
        let (_, frame) = self.frame_sync.next_frame();
        device.call(DeviceCall::WaitForFence { fence: frame.in_flight_fence });
        self.phase = FramePhase::AwaitingImage;
        proof {
            assert(device.log() =~= pre_device.log() + (built + old(self).slot_wait()));
        }
        Ok(FrameAction::AcquireImage { swapchain, signal: frame.image_available })
    }

    fn draw_frame(&mut self, device: &mut Device, image_index: u32) -> (result: Result<
        FrameAction,
        EngineError,
    >)
        requires
            old(self).wf(),
            old(self).phase is AwaitingImage,
            image_index < old(self).swapchain->Some_0.images@.len(),
        ensures
            final(self).wf(),
            Self::stepped(
                *old(self),
                *old(device),
                FrameEvent::ImageAcquired { image_index },
                *final(self),
                *final(device),
                result,
            ),
    {
        let slot = self.frame_sync.frame_idx;
        let frame = Frame {
            in_flight_fence: self.frame_sync.fence(),
            image_available: self.frame_sync.image_available(),
            render_finished: self.frame_sync.render_finished(),
        };
        let command_buffer = self.command_buffers[slot];
        let set = self.descriptor_sets[slot];
        let queue = self.queue;
        let (image, chain) = match &mut self.swapchain {
            Some(swapchain) => (swapchain.next_image(device, image_index, &frame), swapchain.swapchain),
            None => {
                return Err(EngineError::UnexpectedEvent);
            },
        };
        match self.realtime_ubo[slot].map(device, self.uniforms.as_slice()) {
            Ok(()) => {},
            Err(error) => {
                return Err(error);
            },
        }
        let ghost written = *device;
        match &self.swapchain {
            Some(swapchain) => {
                device.call(DeviceCall::ResetCommandBuffer { command_buffer });
                device.call(DeviceCall::BeginCommandBuffer { command_buffer, one_time_submit: false });
                device.call(
                    DeviceCall::CmdBeginRenderPass {
                        command_buffer,
                        render_pass: swapchain.render_pass,
                        framebuffer: image.framebuffer,
                        extent: swapchain.extent,
                        clear: ClearValues { color: [0, 0, 0, ONE], depth: ONE, stencil: 0 },
                    },
                );
                let ghost begun = *device;
                proof {
                    assert(begun.log() =~= written.log() + pass_begun(
                        command_buffer,
                        old(self).swapchain->Some_0,
                        image.framebuffer,
                    ));
                }
                record_passes(device, command_buffer, set, &swapchain.pipelines, &self.objects);
            },
            None => {},
        }
        let ghost recorded = *device;
        device.call(DeviceCall::CmdEndRenderPass { command_buffer });
        device.call(DeviceCall::EndCommandBuffer { command_buffer });
        device.call(DeviceCall::ResetFence { fence: frame.in_flight_fence });
        device.call(
            DeviceCall::QueueSubmit {
                queue,
                submit: SubmitInfo {
                    command_buffer,
                    wait_semaphore: Some(frame.image_available),
                    wait_stage: PIPELINE_STAGE_COLOR_ATTACHMENT_OUTPUT,
                    signal_semaphore: Some(frame.render_finished),
                    fence: Some(frame.in_flight_fence),
                },
            },
        );
        self.phase = FramePhase::AwaitingPresent;
        proof {
            assert(device.log() =~= recorded.log() + pass_submitted(command_buffer, queue, frame));
            assert(device.log() =~= old(device).log() + old(self).frame_calls(image_index as int));
        }
        Ok(FrameAction::Present { swapchain: chain, image_index, wait: frame.render_finished })
    }

    /// Takes one step of a frame: answers `event` with the calls recorded on `device` and with
    /// what the host is to find out next.
    ///
    /// A stale surface is no error: the frame is dropped, the swapchain torn down, and the
    /// next frame builds a new one. An error gives the frame up and leaves the engine idle.
    pub fn next_frame(&mut self, device: &mut Device, event: FrameEvent) -> (result: Result<
        FrameAction,
        EngineError,
    >)
        requires
            old(self).wf(),
            old(device).headroom() >= old(self).names_needed(event),
        ensures
            final(self).wf(),
            old(self).known_to(old(device)) ==> final(self).known_to(final(device)),
            Self::stepped(*old(self), *old(device), event, *final(self), *final(device), result),
    {
        match event {
            FrameEvent::Failed { code } => {
                self.give_up();
                Err(EngineError::DeviceError(code))
            },
            FrameEvent::Requested { uniforms } => {
                if !matches!(self.phase, FramePhase::Idle) {
                    self.give_up();
                    return Err(EngineError::UnexpectedEvent);
                }
                if uniforms.len() > UNIFORM_SIZE {
                    self.give_up();
                    return Err(EngineError::InvalidArgument);
                }
                self.uniforms = uniforms;
                if self.swapchain.is_none() {
                    self.phase = FramePhase::AwaitingSurface;
                    Ok(FrameAction::QuerySurface)
                } else {
                    self.open_frame(device, Ghost(Seq::empty()), Ghost(0), Ghost(*old(device)))
                }
            },
            FrameEvent::SurfaceQueried { surface } => {
                if !matches!(self.phase, FramePhase::AwaitingSurface) {
                    self.give_up();
                    return Err(EngineError::UnexpectedEvent);
                }
                let swapchain = Swapchain::request(device, &surface);
                self.phase = FramePhase::AwaitingImages { swapchain, extent: surface.extent };
                Ok(FrameAction::EnumerateImages { swapchain })
            },
            FrameEvent::ImagesEnumerated { image_count } => {
                match self.phase {
                    FramePhase::AwaitingImages { swapchain, extent } => {
                        let made = Swapchain::new(
                            device,
                            swapchain,
                            extent,
                            image_count,
                            self.descriptor_set_layout,
                            &self.materials,
                        );
                        self.swapchain = Some(made);
                        self.phase = FramePhase::Idle;
                        let ghost built = Swapchain::creation(
                            swapchain,
                            extent,
                            image_count as nat,
                            self.descriptor_set_layout,
                            self.materials@,
                            old(device).issued() + 1,
                        );
                        let ghost named = old(self).names_needed(event);
                        let ghost ready = *self;
                        let result = self.open_frame(
                            device,
                            Ghost(built),
                            Ghost(named),
                            Ghost(*old(device)),
                        );
                        proof {
                            assert(ready.slot_wait() == old(self).slot_wait());
                        }
                        result
                    },
                    _ => {
                        self.give_up();
                        Err(EngineError::UnexpectedEvent)
                    },
                }
            },
            FrameEvent::ImageAcquired { image_index } => {
                if !matches!(self.phase, FramePhase::AwaitingImage) {
                    self.give_up();
                    return Err(EngineError::UnexpectedEvent);
                }
                let image_count = match &self.swapchain {
                    Some(swapchain) => swapchain.images.len(),
                    None => 0,
                };
                if image_index as usize >= image_count {
                    self.give_up();
                    return Err(EngineError::InvalidArgument);
                }
                self.draw_frame(device, image_index)
            },
            FrameEvent::Stale => {
                if matches!(self.phase, FramePhase::AwaitingImage) || matches!(
                    self.phase,
                    FramePhase::AwaitingPresent
                ) {
                    self.invalidate_swapchain(device);
                    Ok(FrameAction::Done)
                } else {
                    self.give_up();
                    Err(EngineError::UnexpectedEvent)
                }
            },
            FrameEvent::Presented => {
                let presented = matches!(self.phase, FramePhase::AwaitingPresent);
                self.give_up();
                if presented {
                    Ok(FrameAction::Done)
                } else {
                    Err(EngineError::UnexpectedEvent)
                }
            },
        }
    }

    fn give_up(&mut self)
        requires
            old(self).wf(),
        ensures
            final(self).wf(),
            *final(self) == (Engine { phase: FramePhase::Idle, ..*old(self) }),
    {
        self.phase = FramePhase::Idle;
    }
}

} // verus!
