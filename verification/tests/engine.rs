use the_hard_way::device::{ClearValues, Extent2D, SubmitInfo};
use the_hard_way::engine::{FRAMES_IN_FLIGHT, ONE, UNIFORM_SIZE, VERTEX_STRIDE};
use the_hard_way::{
    Command, Device, DeviceCall, DrawType, Engine, EngineError, FrameAction, FrameEvent,
    FramePhase, MaterialId, ObjectId, SurfaceCapabilities,
};

const SHADER: [u8; 8] = [0x03, 0x02, 0x23, 0x07, 1, 0, 0, 0];
const EXTENT: Extent2D = Extent2D { width: 1280, height: 720 };
const SURFACE: SurfaceCapabilities = SurfaceCapabilities {
    extent: EXTENT,
    recommended_image_count: 3,
    min_image_count: 2,
    max_image_count: 0,
};

fn setup() -> (Device, Engine) {
    let mut device = Device::new();
    let queue = device.fresh();
    let pool = device.fresh();
    let engine = Engine::new(&mut device, queue, pool, FRAMES_IN_FLIGHT).unwrap();
    device.take_commands();
    (device, engine)
}

fn quad() -> (Vec<u8>, Vec<u16>) {
    let vertices: Vec<u8> = (0..4 * VERTEX_STRIDE).map(|i| i as u8).collect();
    (vertices, vec![0, 1, 2, 2, 3, 0])
}

fn uniforms() -> Vec<u8> {
    (0..UNIFORM_SIZE).map(|i| (i * 3) as u8).collect()
}

fn calls(commands: &[Command]) -> Vec<DeviceCall> {
    commands
        .iter()
        .filter_map(|command| match command {
            Command::Call(call) => Some(*call),
            _ => None,
        })
        .collect()
}

fn count(commands: &[Command], wanted: fn(&DeviceCall) -> bool) -> usize {
    calls(commands).iter().filter(|call| wanted(call)).count()
}

fn is_bind_pipeline(call: &DeviceCall) -> bool {
    matches!(call, DeviceCall::CmdBindPipeline { .. })
}

fn is_draw(call: &DeviceCall) -> bool {
    matches!(call, DeviceCall::CmdDrawIndexed { .. })
}

fn is_create_swapchain(call: &DeviceCall) -> bool {
    matches!(call, DeviceCall::CreateSwapchain { .. })
}

fn is_destroy_pipeline(call: &DeviceCall) -> bool {
    matches!(call, DeviceCall::DestroyPipeline { .. })
}

fn is_destroy_framebuffer(call: &DeviceCall) -> bool {
    matches!(call, DeviceCall::DestroyFramebuffer { .. })
}

/// Plays the host for one frame on a surface that never goes stale: every image asked for is
/// image `image_index`.
fn frame(engine: &mut Engine, device: &mut Device, image_index: u32) -> Vec<Command> {
    let mut event = FrameEvent::Requested { uniforms: uniforms() };
    loop {
        let action = engine.next_frame(device, event).unwrap();
        event = match action {
            FrameAction::QuerySurface => FrameEvent::SurfaceQueried { surface: SURFACE },
            FrameAction::EnumerateImages { .. } => FrameEvent::ImagesEnumerated { image_count: 3 },
            FrameAction::AcquireImage { .. } => FrameEvent::ImageAcquired { image_index },
            FrameAction::Present { .. } => FrameEvent::Presented,
            FrameAction::Done => return device.take_commands(),
        };
    }
}

/// Plays the host up to the point where the engine asks for an image.
fn frame_until_acquire(engine: &mut Engine, device: &mut Device) -> FrameAction {
    let mut event = FrameEvent::Requested { uniforms: uniforms() };
    loop {
        let action = engine.next_frame(device, event).unwrap();
        event = match action {
            FrameAction::QuerySurface => FrameEvent::SurfaceQueried { surface: SURFACE },
            FrameAction::EnumerateImages { .. } => FrameEvent::ImagesEnumerated { image_count: 3 },
            other => return other,
        };
    }
}

#[test]
fn new_engine_has_a_slot_for_every_frame_in_flight() {
    let mut device = Device::new();
    let engine = Engine::new(&mut device, 901, 900, 2).unwrap();
    assert_eq!(engine.command_buffers, vec![1, 2]);
    assert_eq!(engine.descriptor_set_layout, 3);
    assert_eq!(engine.descriptor_pool, 4);
    assert_eq!(engine.descriptor_sets, vec![5, 6]);
    assert_eq!(engine.realtime_ubo.iter().map(|b| b.buffer()).collect::<Vec<_>>(), vec![7, 8]);
    assert!(engine.realtime_ubo.iter().all(|b| b.is_dynamic() && !b.is_freed()));
    assert!(engine.realtime_ubo.iter().all(|b| b.create_info().size == 68));
    assert_eq!(engine.frame_sync.image_available_semaphores, vec![9, 10]);
    assert_eq!(engine.frame_sync.render_finished_semaphores, vec![11, 12]);
    assert_eq!(engine.frame_sync.in_flight_fences, vec![13, 14]);
    assert_eq!(engine.queue, 901);
    assert_eq!(engine.command_pool, 900);
    assert!(engine.swapchain.is_none());
    assert!(engine.materials.is_empty());
    assert!(engine.objects.is_empty());
    assert_eq!(engine.phase, FramePhase::Idle);
    assert_eq!(device.count(), 14);
    let recorded = device.take_commands();
    let recorded = calls(&recorded);
    assert_eq!(recorded.len(), 2 + 2 + 2 + 4 + 2 + 6);
    assert_eq!(
        recorded[..6],
        [
            DeviceCall::AllocateCommandBuffer { command_buffer: 1, pool: 900 },
            DeviceCall::AllocateCommandBuffer { command_buffer: 2, pool: 900 },
            DeviceCall::CreateDescriptorSetLayout { layout: 3 },
            DeviceCall::CreateDescriptorPool { pool: 4, max_sets: 2 },
            DeviceCall::AllocateDescriptorSet { set: 5, pool: 4, layout: 3 },
            DeviceCall::AllocateDescriptorSet { set: 6, pool: 4, layout: 3 },
        ]
    );
    assert_eq!(
        recorded[10..12],
        [
            DeviceCall::UpdateDescriptorSet { set: 5, buffer: 7, range: 64 },
            DeviceCall::UpdateDescriptorSet { set: 6, buffer: 8, range: 64 },
        ]
    );
}

#[test]
fn engine_without_slots_is_refused() {
    let mut device = Device::new();
    assert!(matches!(Engine::new(&mut device, 901, 900, 0), Err(EngineError::InvalidArgument)));
    assert_eq!(device.count(), 0);
    assert!(device.take_commands().is_empty());
}

#[test]
fn quad_is_drawn_with_one_bind_and_one_draw_of_six_indices() {
    let (mut device, mut engine) = setup();
    let material = engine.load_material(&mut device, &SHADER, &SHADER, DrawType::Triangles).unwrap();
    let (vertices, indices) = quad();
    engine.add_object(&mut device, &vertices, &indices, material, false).unwrap();
    device.take_commands();

    let recorded = frame(&mut engine, &mut device, 0);
    assert_eq!(count(&recorded, is_bind_pipeline), 1);
    assert_eq!(count(&recorded, is_draw), 1);
    let draws: Vec<DeviceCall> = calls(&recorded).into_iter().filter(is_draw).collect();
    let command_buffer = engine.command_buffers[1];
    assert_eq!(draws, vec![DeviceCall::CmdDrawIndexed { command_buffer, index_count: 6 }]);
}

#[test]
fn frame_records_wait_write_draw_and_submit_in_order() {
    let (mut device, mut engine) = setup();
    let material = engine.load_material(&mut device, &SHADER, &SHADER, DrawType::Triangles).unwrap();
    let (vertices, indices) = quad();
    let object = engine.add_object(&mut device, &vertices, &indices, material, true).unwrap();
    let mut transform = [0u32; 16];
    transform[12] = 0x4000_0000;
    engine.set_transform(object, transform);
    device.take_commands();

    let action = frame_until_acquire(&mut engine, &mut device);
    let swapchain = engine.swapchain.as_ref().unwrap().swapchain;
    let fence = engine.frame_sync.in_flight_fences[1];
    assert_eq!(
        action,
        FrameAction::AcquireImage {
            swapchain,
            signal: engine.frame_sync.image_available_semaphores[1]
        }
    );
    let opening = device.take_commands();
    assert_eq!(
        opening.last(),
        Some(&Command::Call(DeviceCall::WaitForFence { fence }))
    );

    let action = engine.next_frame(&mut device, FrameEvent::ImageAcquired { image_index: 2 });
    assert_eq!(
        action,
        Ok(FrameAction::Present {
            swapchain,
            image_index: 2,
            wait: engine.frame_sync.render_finished_semaphores[1]
        })
    );
    let chain = engine.swapchain.as_ref().unwrap();
    let pipeline = chain.pipelines[0].1;
    let command_buffer = engine.command_buffers[1];
    let stored = &engine.objects[0].1;
    assert_eq!(
        device.take_commands(),
        vec![
            Command::WriteBuffer { buffer: engine.realtime_ubo[1].buffer(), bytes: uniforms() },
            Command::Call(DeviceCall::ResetCommandBuffer { command_buffer }),
            Command::Call(DeviceCall::BeginCommandBuffer { command_buffer, one_time_submit: false }),
            Command::Call(DeviceCall::CmdBeginRenderPass {
                command_buffer,
                render_pass: chain.render_pass,
                framebuffer: chain.images[2].framebuffer,
                extent: EXTENT,
                clear: ClearValues { color: [0, 0, 0, ONE], depth: ONE, stencil: 0 },
            }),
            Command::Call(DeviceCall::CmdBindPipeline { command_buffer, pipeline: pipeline.pipeline }),
            Command::Call(DeviceCall::CmdBindDescriptorSet {
                command_buffer,
                layout: pipeline.pipeline_layout,
                set: engine.descriptor_sets[1],
            }),
            Command::Call(DeviceCall::CmdBindVertexBuffer {
                command_buffer,
                buffer: stored.vertices.buffer()
            }),
            Command::Call(DeviceCall::CmdBindIndexBuffer {
                command_buffer,
                buffer: stored.indices.buffer()
            }),
            Command::Call(DeviceCall::CmdPushConstants {
                command_buffer,
                layout: pipeline.pipeline_layout,
                matrix: transform,
            }),
            Command::Call(DeviceCall::CmdDrawIndexed { command_buffer, index_count: 6 }),
            Command::Call(DeviceCall::CmdEndRenderPass { command_buffer }),
            Command::Call(DeviceCall::EndCommandBuffer { command_buffer }),
            Command::Call(DeviceCall::ResetFence { fence }),
            Command::Call(DeviceCall::QueueSubmit {
                queue: engine.queue,
                submit: SubmitInfo {
                    command_buffer,
                    wait_semaphore: Some(engine.frame_sync.image_available_semaphores[1]),
                    wait_stage: 0x400,
                    signal_semaphore: Some(engine.frame_sync.render_finished_semaphores[1]),
                    fence: Some(fence),
                },
            }),
        ]
    );
    assert_eq!(engine.swapchain.as_ref().unwrap().images[2].in_flight, fence);
    assert_eq!(engine.phase, FramePhase::AwaitingPresent);
    assert_eq!(engine.next_frame(&mut device, FrameEvent::Presented), Ok(FrameAction::Done));
    assert_eq!(engine.phase, FramePhase::Idle);
    assert!(device.take_commands().is_empty());
}

#[test]
fn swapchain_is_built_once_while_the_surface_stays() {
    let (mut device, mut engine) = setup();
    engine.load_material(&mut device, &SHADER, &SHADER, DrawType::Triangles).unwrap();
    device.take_commands();
    let mut built = 0;
    let mut chains = Vec::new();
    for i in 0..12 {
        let recorded = frame(&mut engine, &mut device, i % 3);
        built += count(&recorded, is_create_swapchain);
        chains.push(engine.swapchain.as_ref().unwrap().swapchain);
    }
    assert_eq!(built, 1);
    assert!(chains.iter().all(|chain| *chain == chains[0]));
}

#[test]
fn frames_take_the_slots_in_turn() {
    let (mut device, mut engine) = setup();
    let mut slots = vec![engine.frame_sync.frame_idx];
    let mut signals = Vec::new();
    for _ in 0..5 {
        match frame_until_acquire(&mut engine, &mut device) {
            FrameAction::AcquireImage { signal, .. } => signals.push(signal),
            other => panic!("unexpected action {:?}", other),
        }
        slots.push(engine.frame_sync.frame_idx);
        engine.next_frame(&mut device, FrameEvent::ImageAcquired { image_index: 0 }).unwrap();
        engine.next_frame(&mut device, FrameEvent::Presented).unwrap();
    }
    assert_eq!(slots, vec![0, 1, 0, 1, 0, 1]);
    let available = &engine.frame_sync.image_available_semaphores;
    assert_eq!(
        signals,
        vec![available[1], available[0], available[1], available[0], available[1]]
    );
}

#[test]
fn image_reused_by_a_later_frame_waits_for_the_earlier_one() {
    let (mut device, mut engine) = setup();
    frame(&mut engine, &mut device, 0);
    let first_fence = engine.frame_sync.in_flight_fences[1];
    frame_until_acquire(&mut engine, &mut device);
    device.take_commands();
    engine.next_frame(&mut device, FrameEvent::ImageAcquired { image_index: 0 }).unwrap();
    let recorded = device.take_commands();
    assert_eq!(recorded[0], Command::Call(DeviceCall::WaitForFence { fence: first_fence }));
    assert_eq!(
        engine.swapchain.as_ref().unwrap().images[0].in_flight,
        engine.frame_sync.in_flight_fences[0]
    );
}

#[test]
fn stale_acquisition_tears_everything_down_and_the_next_frame_rebuilds() {
    let (mut device, mut engine) = setup();
    let first = engine.load_material(&mut device, &SHADER, &SHADER, DrawType::Triangles).unwrap();
    engine.load_material(&mut device, &SHADER, &SHADER, DrawType::Lines).unwrap();
    let (vertices, indices) = quad();
    engine.add_object(&mut device, &vertices, &indices, first, false).unwrap();
    frame(&mut engine, &mut device, 0);
    let old_chain = engine.swapchain.as_ref().unwrap().swapchain;

    frame_until_acquire(&mut engine, &mut device);
    device.take_commands();
    assert_eq!(engine.next_frame(&mut device, FrameEvent::Stale), Ok(FrameAction::Done));
    assert!(engine.swapchain.is_none());
    assert_eq!(engine.phase, FramePhase::Idle);
    let torn = device.take_commands();
    assert_eq!(torn[0], Command::Call(DeviceCall::DeviceWaitIdle));
    assert_eq!(count(&torn, is_destroy_pipeline), 2);
    assert_eq!(count(&torn, is_destroy_framebuffer), 3);
    assert_eq!(
        torn.last(),
        Some(&Command::Call(DeviceCall::DestroySwapchain { swapchain: old_chain }))
    );

    let recorded = frame(&mut engine, &mut device, 1);
    let chain = engine.swapchain.as_ref().unwrap();
    assert_ne!(chain.swapchain, old_chain);
    assert_eq!(chain.images.len(), 3);
    assert_eq!(
        chain.pipelines.iter().map(|entry| entry.0).collect::<Vec<_>>(),
        vec![MaterialId(0), MaterialId(1)]
    );
    assert_eq!(count(&recorded, is_create_swapchain), 1);
    assert_eq!(count(&recorded, is_draw), 1);
    assert_eq!(engine.phase, FramePhase::Idle);
}

#[test]
fn stale_presentation_drops_the_frame_without_an_error() {
    let (mut device, mut engine) = setup();
    frame_until_acquire(&mut engine, &mut device);
    engine.next_frame(&mut device, FrameEvent::ImageAcquired { image_index: 1 }).unwrap();
    device.take_commands();
    assert_eq!(engine.next_frame(&mut device, FrameEvent::Stale), Ok(FrameAction::Done));
    assert!(engine.swapchain.is_none());
    assert_eq!(count(&device.take_commands(), is_destroy_framebuffer), 3);
    assert_eq!(
        engine.next_frame(&mut device, FrameEvent::Requested { uniforms: uniforms() }),
        Ok(FrameAction::QuerySurface)
    );
}

#[test]
fn removing_an_object_waits_for_the_device_before_releasing_its_buffers() {
    let (mut device, mut engine) = setup();
    let material = engine.load_material(&mut device, &SHADER, &SHADER, DrawType::Triangles).unwrap();
    let (vertices, indices) = quad();
    let object = engine.add_object(&mut device, &vertices, &indices, material, false).unwrap();
    frame_until_acquire(&mut engine, &mut device);
    engine.next_frame(&mut device, FrameEvent::ImageAcquired { image_index: 0 }).unwrap();
    device.take_commands();
    let vertex_buffer = engine.objects[0].1.vertices.buffer();
    let index_buffer = engine.objects[0].1.indices.buffer();

    engine.remove_object(&mut device, object);
    assert!(engine.objects.is_empty());
    assert_eq!(
        calls(&device.take_commands()),
        vec![
            DeviceCall::DeviceWaitIdle,
            DeviceCall::DeviceWaitIdle,
            DeviceCall::FreeBuffer { buffer: vertex_buffer },
            DeviceCall::DeviceWaitIdle,
            DeviceCall::FreeBuffer { buffer: index_buffer },
        ]
    );
    engine.next_frame(&mut device, FrameEvent::Presented).unwrap();
    let recorded = frame(&mut engine, &mut device, 1);
    assert_eq!(count(&recorded, is_draw), 0);
    assert_eq!(count(&recorded, is_bind_pipeline), 0);
}

#[test]
fn removing_an_unknown_object_only_waits() {
    let (mut device, mut engine) = setup();
    engine.remove_object(&mut device, ObjectId(7));
    assert_eq!(calls(&device.take_commands()), vec![DeviceCall::DeviceWaitIdle]);
}

#[test]
fn unloading_a_material_removes_only_its_pipeline() {
    let (mut device, mut engine) = setup();
    let first = engine.load_material(&mut device, &SHADER, &SHADER, DrawType::Triangles).unwrap();
    let second = engine.load_material(&mut device, &SHADER, &SHADER, DrawType::Lines).unwrap();
    let (vertices, indices) = quad();
    engine.add_object(&mut device, &vertices, &indices, first, false).unwrap();
    engine.add_object(&mut device, &vertices, &indices[..3], second, false).unwrap();
    let recorded = frame(&mut engine, &mut device, 0);
    assert_eq!(count(&recorded, is_bind_pipeline), 2);
    assert_eq!(count(&recorded, is_draw), 2);
    let kept = engine.swapchain.as_ref().unwrap().pipelines[1];
    let dropped = engine.swapchain.as_ref().unwrap().pipelines[0];
    let modules = (engine.materials[0].1.vertex, engine.materials[0].1.fragment);

    engine.unload_material(&mut device, first);
    assert_eq!(engine.materials.len(), 1);
    assert_eq!(engine.materials[0].0, second);
    assert_eq!(engine.swapchain.as_ref().unwrap().pipelines, vec![kept]);
    assert_eq!(
        calls(&device.take_commands()),
        vec![
            DeviceCall::DestroyShaderModule { module: modules.1 },
            DeviceCall::DestroyShaderModule { module: modules.0 },
            DeviceCall::DestroyPipeline { pipeline: dropped.1.pipeline },
            DeviceCall::DestroyPipelineLayout { layout: dropped.1.pipeline_layout },
        ]
    );

    let recorded = frame(&mut engine, &mut device, 1);
    let command_buffer = engine.command_buffers[engine.frame_sync.frame_idx];
    let recorded = calls(&recorded);
    let binds: Vec<&DeviceCall> = recorded.iter().filter(|call| is_bind_pipeline(call)).collect();
    assert_eq!(
        binds,
        vec![&DeviceCall::CmdBindPipeline { command_buffer, pipeline: kept.1.pipeline }]
    );
    let draws: Vec<&DeviceCall> = recorded.iter().filter(|call| is_draw(call)).collect();
    assert_eq!(draws, vec![&DeviceCall::CmdDrawIndexed { command_buffer, index_count: 3 }]);
}

#[test]
fn unloading_an_unknown_material_does_nothing() {
    let (mut device, mut engine) = setup();
    engine.load_material(&mut device, &SHADER, &SHADER, DrawType::Triangles).unwrap();
    frame(&mut engine, &mut device, 0);
    engine.unload_material(&mut device, MaterialId(5));
    assert_eq!(engine.materials.len(), 1);
    assert_eq!(engine.swapchain.as_ref().unwrap().pipelines.len(), 1);
    assert!(device.take_commands().is_empty());
}

#[test]
fn material_loaded_after_the_swapchain_gets_its_pipeline_at_once() {
    let (mut device, mut engine) = setup();
    frame(&mut engine, &mut device, 0);
    assert!(engine.swapchain.as_ref().unwrap().pipelines.is_empty());
    let material = engine.load_material(&mut device, &SHADER, &SHADER, DrawType::Points).unwrap();
    assert_eq!(material, MaterialId(0));
    let chain = engine.swapchain.as_ref().unwrap();
    assert_eq!(chain.pipelines.len(), 1);
    assert_eq!(chain.pipelines[0].0, material);
    let recorded = device.take_commands();
    assert_eq!(recorded.len(), 4);
    assert!(matches!(recorded[0], Command::CreateShaderModule { .. }));
    assert!(matches!(recorded[3], Command::Call(DeviceCall::CreateGraphicsPipeline { .. })));
}

#[test]
fn material_identifiers_grow_and_are_used_up_by_bad_shaders() {
    let (mut device, mut engine) = setup();
    assert_eq!(
        engine.load_material(&mut device, &SHADER, &SHADER, DrawType::Triangles),
        Ok(MaterialId(0))
    );
    assert_eq!(
        engine.load_material(&mut device, &SHADER[..7], &SHADER, DrawType::Triangles),
        Err(EngineError::InvalidShader)
    );
    assert_eq!(
        engine.load_material(&mut device, &SHADER, &SHADER, DrawType::Triangles),
        Ok(MaterialId(2))
    );
    assert_eq!(
        engine.materials.iter().map(|entry| entry.0).collect::<Vec<_>>(),
        vec![MaterialId(0), MaterialId(2)]
    );
}

#[test]
fn object_indices_are_written_in_the_byte_order_of_the_machine() {
    let (mut device, mut engine) = setup();
    let (vertices, _) = quad();
    let indices = [0x0102u16, 0x0304, 0xfffe];
    let object = engine.add_object(&mut device, &vertices, &indices, MaterialId(3), true).unwrap();
    assert_eq!(object, ObjectId(0));
    let expected: Vec<u8> = indices.iter().flat_map(|index| index.to_ne_bytes()).collect();
    let writes: Vec<Command> = device
        .take_commands()
        .into_iter()
        .filter(|command| matches!(command, Command::WriteBuffer { .. }))
        .collect();
    let stored = &engine.objects[0].1;
    assert_eq!(stored.n_indices, 3);
    assert_eq!(stored.material, MaterialId(3));
    assert_eq!(
        stored.transform,
        [ONE, 0, 0, 0, 0, ONE, 0, 0, 0, 0, ONE, 0, 0, 0, 0, ONE]
    );
    assert!(stored.vertices.is_dynamic());
    assert!(!stored.indices.is_dynamic());
    assert_eq!(stored.vertices.create_info().size, 96);
    assert_eq!(stored.indices.create_info().size, 6);
    assert_eq!(
        writes,
        vec![
            Command::WriteBuffer { buffer: stored.vertices.buffer(), bytes: vertices },
            Command::WriteBuffer { buffer: stored.indices.buffer() - 1, bytes: expected },
        ]
    );
}

#[test]
fn object_from_bytes_records_the_bytes_as_given() {
    let (mut device, mut engine) = setup();
    let (vertices, _) = quad();
    let index_data = [9u8, 8, 7, 6];
    let added = engine.add_object_from_bytes(&mut device, &vertices, &index_data, 2, MaterialId(0), false);
    assert_eq!(added, Ok(ObjectId(0)));
    let recorded = device.take_commands();
    assert_eq!(recorded.len(), 2 * (2 + 1 + 11));
    assert_eq!(
        recorded[2],
        Command::WriteBuffer { buffer: engine.objects[0].1.vertices.buffer() - 1, bytes: vertices }
    );
    assert_eq!(
        recorded[16],
        Command::WriteBuffer {
            buffer: engine.objects[0].1.indices.buffer() - 1,
            bytes: index_data.to_vec()
        }
    );
    assert!(!engine.objects[0].1.vertices.is_dynamic());
}

#[test]
fn meshes_that_cannot_be_drawn_are_refused_and_use_up_an_identifier() {
    let (mut device, mut engine) = setup();
    let (vertices, indices) = quad();
    let no_vertices: [u8; 0] = [];
    let no_indices: [u16; 0] = [];
    assert_eq!(
        engine.add_object(&mut device, &no_vertices, &indices, MaterialId(0), false),
        Err(EngineError::InvalidArgument)
    );
    assert_eq!(
        engine.add_object(&mut device, &vertices[..25], &indices, MaterialId(0), false),
        Err(EngineError::InvalidArgument)
    );
    assert_eq!(
        engine.add_object(&mut device, &vertices, &no_indices, MaterialId(0), false),
        Err(EngineError::InvalidArgument)
    );
    assert_eq!(
        engine.add_object_from_bytes(&mut device, &vertices, &[1, 2, 3], 2, MaterialId(0), false),
        Err(EngineError::InvalidArgument)
    );
    assert!(engine.objects.is_empty());
    assert!(device.take_commands().is_empty());
    assert_eq!(
        engine.add_object(&mut device, &vertices, &indices, MaterialId(0), false),
        Ok(ObjectId(4))
    );
}

#[test]
fn vertices_can_be_written_again_only_to_dynamic_objects() {
    let (mut device, mut engine) = setup();
    let (vertices, indices) = quad();
    let fixed = engine.add_object(&mut device, &vertices, &indices, MaterialId(0), false).unwrap();
    let dynamic = engine.add_object(&mut device, &vertices, &indices, MaterialId(0), true).unwrap();
    device.take_commands();
    assert_eq!(
        engine.reupload_vertices(&mut device, fixed, &vertices),
        Err(EngineError::ImmutableBuffer)
    );
    assert!(device.take_commands().is_empty());
    assert_eq!(engine.reupload_vertices(&mut device, dynamic, &vertices[..24]), Ok(()));
    assert_eq!(
        device.take_commands(),
        vec![Command::WriteBuffer {
            buffer: engine.objects[1].1.vertices.buffer(),
            bytes: vertices[..24].to_vec()
        }]
    );
    let mut longer = vertices.clone();
    longer.push(0);
    assert_eq!(
        engine.reupload_vertices(&mut device, dynamic, &longer),
        Err(EngineError::InvalidArgument)
    );
    assert_eq!(engine.reupload_vertices(&mut device, ObjectId(9), &vertices), Ok(()));
    assert!(device.take_commands().is_empty());
}

#[test]
fn transform_is_set_on_the_object_named_and_no_other() {
    let (mut device, mut engine) = setup();
    let (vertices, indices) = quad();
    let first = engine.add_object(&mut device, &vertices, &indices, MaterialId(0), false).unwrap();
    let second = engine.add_object(&mut device, &vertices, &indices, MaterialId(0), false).unwrap();
    let identity = engine.objects[0].1.transform;
    let moved = [7u32; 16];
    engine.set_transform(second, moved);
    assert_eq!(engine.objects[0].0, first);
    assert_eq!(engine.objects[0].1.transform, identity);
    assert_eq!(engine.objects[1].1.transform, moved);
    engine.set_transform(ObjectId(40), [1; 16]);
    assert_eq!(engine.objects[0].1.transform, identity);
    assert_eq!(engine.objects[1].1.transform, moved);
}

#[test]
fn events_out_of_turn_give_the_frame_up() {
    let (mut device, mut engine) = setup();
    assert_eq!(
        engine.next_frame(&mut device, FrameEvent::Presented),
        Err(EngineError::UnexpectedEvent)
    );
    assert_eq!(
        engine.next_frame(&mut device, FrameEvent::Stale),
        Err(EngineError::UnexpectedEvent)
    );
    assert_eq!(
        engine.next_frame(&mut device, FrameEvent::ImagesEnumerated { image_count: 2 }),
        Err(EngineError::UnexpectedEvent)
    );
    assert_eq!(
        engine.next_frame(&mut device, FrameEvent::SurfaceQueried { surface: SURFACE }),
        Err(EngineError::UnexpectedEvent)
    );
    assert_eq!(
        engine.next_frame(&mut device, FrameEvent::ImageAcquired { image_index: 0 }),
        Err(EngineError::UnexpectedEvent)
    );
    assert_eq!(engine.phase, FramePhase::Idle);
    assert!(device.take_commands().is_empty());

    frame_until_acquire(&mut engine, &mut device);
    assert_eq!(
        engine.next_frame(&mut device, FrameEvent::Requested { uniforms: uniforms() }),
        Err(EngineError::UnexpectedEvent)
    );
    assert_eq!(engine.phase, FramePhase::Idle);
    assert!(engine.swapchain.is_some());
}

#[test]
fn device_failures_are_surfaced_with_their_code() {
    let (mut device, mut engine) = setup();
    frame_until_acquire(&mut engine, &mut device);
    device.take_commands();
    assert_eq!(
        engine.next_frame(&mut device, FrameEvent::Failed { code: -4 }),
        Err(EngineError::DeviceError(-4))
    );
    assert_eq!(engine.phase, FramePhase::Idle);
    assert!(engine.swapchain.is_some());
    assert!(device.take_commands().is_empty());
    assert_eq!(
        engine.next_frame(&mut device, FrameEvent::Failed { code: -1 }),
        Err(EngineError::DeviceError(-1))
    );
}

#[test]
fn uniforms_that_do_not_fit_and_images_that_do_not_exist_are_refused() {
    let (mut device, mut engine) = setup();
    assert_eq!(
        engine.next_frame(&mut device, FrameEvent::Requested { uniforms: vec![0; UNIFORM_SIZE + 1] }),
        Err(EngineError::InvalidArgument)
    );
    assert_eq!(engine.phase, FramePhase::Idle);
    frame_until_acquire(&mut engine, &mut device);
    device.take_commands();
    assert_eq!(
        engine.next_frame(&mut device, FrameEvent::ImageAcquired { image_index: 3 }),
        Err(EngineError::InvalidArgument)
    );
    assert_eq!(engine.phase, FramePhase::Idle);
    assert!(device.take_commands().is_empty());
}

#[test]
fn invalidating_the_swapchain_by_hand_makes_the_next_frame_rebuild() {
    let (mut device, mut engine) = setup();
    frame(&mut engine, &mut device, 0);
    engine.invalidate_swapchain(&mut device);
    assert!(engine.swapchain.is_none());
    assert_eq!(count(&device.take_commands(), is_destroy_framebuffer), 3);
    engine.invalidate_swapchain(&mut device);
    assert!(device.take_commands().is_empty());
    let recorded = frame(&mut engine, &mut device, 0);
    assert_eq!(count(&recorded, is_create_swapchain), 1);
}

#[test]
fn freeing_the_engine_releases_everything_it_holds() {
    let (mut device, mut engine) = setup();
    let material = engine.load_material(&mut device, &SHADER, &SHADER, DrawType::Triangles).unwrap();
    let (vertices, indices) = quad();
    engine.add_object(&mut device, &vertices, &indices, material, false).unwrap();
    engine.add_object(&mut device, &vertices, &indices, material, true).unwrap();
    frame(&mut engine, &mut device, 0);
    let pool = engine.command_pool;
    engine.free(&mut device);
    let recorded = device.take_commands();
    let recorded = calls(&recorded);
    let freed = recorded.iter().filter(|c| matches!(c, DeviceCall::FreeBuffer { .. })).count();
    assert_eq!(freed, 2 * 2 + 2);
    assert_eq!(recorded.iter().filter(|c| matches!(c, DeviceCall::DestroyShaderModule { .. })).count(), 2);
    assert_eq!(recorded.iter().filter(|c| matches!(c, DeviceCall::DestroySwapchain { .. })).count(), 1);
    assert_eq!(recorded.iter().filter(|c| matches!(c, DeviceCall::DestroySemaphore { .. })).count(), 4);
    assert_eq!(recorded.iter().filter(|c| matches!(c, DeviceCall::DestroyFence { .. })).count(), 2);
    assert_eq!(recorded.iter().filter(|c| matches!(c, DeviceCall::FreeCommandBuffer { .. })).count(), 2);
    assert_eq!(recorded[0], DeviceCall::DeviceWaitIdle);
    assert_eq!(recorded.last(), Some(&DeviceCall::DestroyCommandPool { pool }));
}

#[test]
fn frames_after_a_removal_never_touch_the_released_buffers() {
    let (mut device, mut engine) = setup();
    let material = engine.load_material(&mut device, &SHADER, &SHADER, DrawType::Triangles).unwrap();
    let (vertices, indices) = quad();
    engine.add_object(&mut device, &vertices, &indices, material, false).unwrap();
    let doomed = engine.add_object(&mut device, &vertices, &indices, material, true).unwrap();
    engine.add_object(&mut device, &vertices, &indices, material, false).unwrap();
    frame(&mut engine, &mut device, 0);
    let released = [
        engine.objects[1].1.vertices.buffer(),
        engine.objects[1].1.indices.buffer(),
    ];
    engine.remove_object(&mut device, doomed);
    device.take_commands();
    let later = engine.add_object(&mut device, &vertices, &indices, material, true).unwrap();
    assert_eq!(later, ObjectId(3));
    for image in 0..3 {
        let recorded = frame(&mut engine, &mut device, image);
        assert_eq!(count(&recorded, is_draw), 3);
        for command in &recorded {
            match command {
                Command::WriteBuffer { buffer, .. }
                | Command::Call(DeviceCall::CmdBindVertexBuffer { buffer, .. })
                | Command::Call(DeviceCall::CmdBindIndexBuffer { buffer, .. })
                | Command::Call(DeviceCall::CreateBuffer { buffer, .. })
                | Command::Call(DeviceCall::FreeBuffer { buffer }) => {
                    assert!(!released.contains(buffer))
                }
                _ => {}
            }
        }
    }
}

#[test]
fn freeing_the_engine_releases_every_buffer_exactly_once() {
    let (mut device, mut engine) = setup();
    let material = engine.load_material(&mut device, &SHADER, &SHADER, DrawType::Triangles).unwrap();
    let (vertices, indices) = quad();
    for i in 0..4 {
        engine.add_object(&mut device, &vertices, &indices, material, i % 2 == 0).unwrap();
    }
    engine.remove_object(&mut device, ObjectId(2));
    device.take_commands();
    let mut held: Vec<u64> = engine.realtime_ubo.iter().map(|buffer| buffer.buffer()).collect();
    for (_, object) in &engine.objects {
        held.push(object.vertices.buffer());
        held.push(object.indices.buffer());
    }
    engine.free(&mut device);
    let mut released: Vec<u64> = calls(&device.take_commands())
        .into_iter()
        .filter_map(|call| match call {
            DeviceCall::FreeBuffer { buffer } => Some(buffer),
            _ => None,
        })
        .collect();
    released.sort();
    held.sort();
    assert_eq!(released, held);
    assert_eq!(held.len(), 2 + 2 * 3);
}

#[test]
fn frame_binds_each_pipeline_once_however_many_objects_use_it() {
    let (mut device, mut engine) = setup();
    let first = engine.load_material(&mut device, &SHADER, &SHADER, DrawType::Triangles).unwrap();
    let second = engine.load_material(&mut device, &SHADER, &SHADER, DrawType::Lines).unwrap();
    let unused = engine.load_material(&mut device, &SHADER, &SHADER, DrawType::Points).unwrap();
    let (vertices, indices) = quad();
    for material in [first, second, first, first, second, MaterialId(77)] {
        engine.add_object(&mut device, &vertices, &indices, material, false).unwrap();
    }
    device.take_commands();
    let recorded = frame(&mut engine, &mut device, 0);
    assert_eq!(count(&recorded, is_bind_pipeline), 2);
    assert_eq!(count(&recorded, is_draw), 5);
    let chain = engine.swapchain.as_ref().unwrap();
    assert_eq!(chain.pipelines.len(), 3);
    assert_eq!(chain.pipelines[2].0, unused);
    let bound: Vec<u64> = calls(&recorded)
        .into_iter()
        .filter_map(|call| match call {
            DeviceCall::CmdBindPipeline { pipeline, .. } => Some(pipeline),
            _ => None,
        })
        .collect();
    assert_eq!(bound, vec![chain.pipelines[0].1.pipeline, chain.pipelines[1].1.pipeline]);
}

#[test]
fn frame_resets_and_signals_the_fence_it_waited_for() {
    let (mut device, mut engine) = setup();
    for _ in 0..4 {
        frame_until_acquire(&mut engine, &mut device);
        let opening = device.take_commands();
        let waited = match opening.last() {
            Some(Command::Call(DeviceCall::WaitForFence { fence })) => *fence,
            other => panic!("unexpected command {:?}", other),
        };
        engine.next_frame(&mut device, FrameEvent::ImageAcquired { image_index: 1 }).unwrap();
        let drawing = calls(&device.take_commands());
        assert_eq!(drawing[drawing.len() - 2], DeviceCall::ResetFence { fence: waited });
        match drawing[drawing.len() - 1] {
            DeviceCall::QueueSubmit { submit, .. } => assert_eq!(submit.fence, Some(waited)),
            other => panic!("unexpected call {:?}", other),
        }
        engine.next_frame(&mut device, FrameEvent::Presented).unwrap();
    }
}

#[test]
fn engine_stays_well_formed_through_its_operations() {
    let (mut device, mut engine) = setup();
    assert!(engine.check(&device));
    let material = engine.load_material(&mut device, &SHADER, &SHADER, DrawType::Triangles).unwrap();
    let (vertices, indices) = quad();
    let first = engine.add_object(&mut device, &vertices, &indices, material, false).unwrap();
    engine.add_object(&mut device, &vertices, &indices, material, true).unwrap();
    assert!(engine.check(&device));
    frame_until_acquire(&mut engine, &mut device);
    assert!(engine.check(&device));
    engine.next_frame(&mut device, FrameEvent::ImageAcquired { image_index: 0 }).unwrap();
    assert!(engine.check(&device));
    engine.next_frame(&mut device, FrameEvent::Stale).unwrap();
    assert!(engine.check(&device));
    engine.remove_object(&mut device, first);
    engine.unload_material(&mut device, material);
    assert!(engine.check(&device));
    assert!(engine.frame_sync.check());
}

#[test]
fn engine_patched_by_hand_is_found_out() {
    let (mut device, mut engine) = setup();
    let material = engine.load_material(&mut device, &SHADER, &SHADER, DrawType::Triangles).unwrap();
    let (vertices, indices) = quad();
    engine.add_object(&mut device, &vertices, &indices, material, false).unwrap();
    engine.add_object(&mut device, &vertices, &indices, material, false).unwrap();
    frame(&mut engine, &mut device, 0);
    assert!(engine.check(&device));
    assert!(engine.swapchain.as_ref().unwrap().check());

    // A device that has named nothing knows none of the engine's buffers.
    assert!(!engine.check(&Device::new()));

    engine.phase = FramePhase::AwaitingSurface;
    assert!(!engine.check(&device));
    engine.phase = FramePhase::Idle;

    engine.objects[1].0 = engine.objects[0].0;
    assert!(!engine.check(&device));
    engine.objects[1].0 = ObjectId(1);
    assert!(engine.check(&device));

    engine.objects.swap(0, 1);
    assert!(!engine.check(&device));
    engine.objects.swap(0, 1);

    engine.next_material_id = 0;
    assert!(!engine.check(&device));
    engine.next_material_id = 1;

    engine.uniforms = vec![0; UNIFORM_SIZE + 1];
    assert!(!engine.check(&device));
    engine.uniforms.clear();

    engine.command_buffers.pop();
    assert!(!engine.check(&device));
    engine.command_buffers.push(1);

    let extra = engine.swapchain.as_ref().unwrap().pipelines[0];
    engine.swapchain.as_mut().unwrap().pipelines.push(extra);
    assert!(!engine.swapchain.as_ref().unwrap().check());
    assert!(!engine.check(&device));
    engine.swapchain.as_mut().unwrap().pipelines.pop();

    engine.swapchain.as_mut().unwrap().images[1].freed = true;
    assert!(!engine.check(&device));
    engine.swapchain.as_mut().unwrap().images[1].freed = false;

    engine.frame_sync.frame_idx = 2;
    assert!(!engine.frame_sync.check());
    assert!(!engine.check(&device));
    engine.frame_sync.frame_idx = 0;
    assert!(engine.check(&device));
}
