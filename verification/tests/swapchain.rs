use the_hard_way::device::{
    AttachmentDescription, Extent2D, FramebufferCreateInfo, GraphicsPipelineCreateInfo,
    ImageCreateInfo, ImageViewCreateInfo, MemoryKind, RenderPassCreateInfo, SubpassDependency,
    SwapchainCreateInfo,
};
use the_hard_way::{
    Command, Device, DeviceCall, DrawType, Frame, Material, MaterialId, Pipeline,
    SurfaceCapabilities, SwapChainImage, Swapchain,
};

const EXTENT: Extent2D = Extent2D { width: 800, height: 600 };

fn surface(recommended: u32, min: u32, max: u32) -> SurfaceCapabilities {
    SurfaceCapabilities {
        extent: EXTENT,
        recommended_image_count: recommended,
        min_image_count: min,
        max_image_count: max,
    }
}

fn materials() -> Vec<(MaterialId, Material)> {
    vec![
        (
            MaterialId(0),
            Material { draw_type: DrawType::Triangles, vertex: 101, fragment: 102, freed: false },
        ),
        (
            MaterialId(4),
            Material { draw_type: DrawType::Points, vertex: 103, fragment: 104, freed: false },
        ),
    ]
}

fn calls(commands: Vec<Command>) -> Vec<DeviceCall> {
    commands
        .into_iter()
        .map(|command| match command {
            Command::Call(call) => call,
            other => panic!("not a plain call: {:?}", other),
        })
        .collect()
}

fn frame(fence: u64) -> Frame {
    Frame { in_flight_fence: fence, image_available: fence + 10, render_finished: fence + 20 }
}

#[test]
fn image_count_is_clamped_into_what_the_surface_supports() {
    assert_eq!(Swapchain::image_count(&surface(3, 2, 8)), 3);
    assert_eq!(Swapchain::image_count(&surface(1, 2, 8)), 2);
    assert_eq!(Swapchain::image_count(&surface(9, 2, 8)), 8);
    assert_eq!(Swapchain::image_count(&surface(2, 2, 8)), 2);
    assert_eq!(Swapchain::image_count(&surface(8, 2, 8)), 8);
}

#[test]
fn image_count_has_no_upper_limit_when_the_surface_names_none() {
    assert_eq!(Swapchain::image_count(&surface(1000, 2, 0)), 1000);
    assert_eq!(Swapchain::image_count(&surface(u32::MAX, 2, 0)), u32::MAX);
    assert_eq!(Swapchain::image_count(&surface(0, 2, 0)), 2);
}

#[test]
fn chain_is_requested_with_the_clamped_count() {
    let mut device = Device::new();
    let swapchain = Swapchain::request(&mut device, &surface(9, 2, 4));
    assert_eq!(swapchain, 1);
    assert_eq!(
        calls(device.take_commands()),
        vec![DeviceCall::CreateSwapchain {
            swapchain: 1,
            info: SwapchainCreateInfo {
                min_image_count: 4,
                extent: EXTENT,
                format: 50,
                usage: 0x10,
                array_layers: 2,
            },
        }]
    );
}

#[test]
fn presentable_image_gets_a_view_then_a_framebuffer() {
    let mut device = Device::new();
    let image = SwapChainImage::new(&mut device, 30, 40, EXTENT, 50);
    assert_eq!(
        image,
        SwapChainImage { image_view: 1, framebuffer: 2, in_flight: 0, freed: false }
    );
    assert_eq!(
        calls(device.take_commands()),
        vec![
            DeviceCall::CreateImageView {
                view: 1,
                info: ImageViewCreateInfo { image: 40, format: 50, aspect_mask: 1, layer_count: 2 },
            },
            DeviceCall::CreateFramebuffer {
                framebuffer: 2,
                info: FramebufferCreateInfo {
                    render_pass: 30,
                    color_view: 1,
                    depth_view: 50,
                    extent: EXTENT,
                    layers: 1,
                },
            },
        ]
    );
}

#[test]
fn presentable_image_free_destroys_framebuffer_then_view() {
    let mut device = Device::new();
    let mut image = SwapChainImage::new(&mut device, 30, 40, EXTENT, 50);
    device.take_commands();
    image.free(&mut device);
    assert!(image.freed);
    assert_eq!(
        calls(device.take_commands()),
        vec![
            DeviceCall::DestroyFramebuffer { framebuffer: 2 },
            DeviceCall::DestroyImageView { view: 1 },
        ]
    );
}

#[test]
fn swapchain_is_built_in_dependency_order() {
    let mut device = Device::new();
    let chain = Swapchain::request(&mut device, &surface(2, 2, 0));
    device.take_commands();
    let swapchain = Swapchain::new(&mut device, chain, EXTENT, 2, 77, &materials());
    assert_eq!(swapchain.swapchain, 1);
    assert_eq!(swapchain.extent, EXTENT);
    assert_eq!(swapchain.depth_image, 4);
    assert_eq!(swapchain.depth_image_view, 5);
    assert_eq!(swapchain.render_pass, 6);
    assert!(!swapchain.freed);
    assert_eq!(
        swapchain.images,
        vec![
            SwapChainImage { image_view: 7, framebuffer: 8, in_flight: 0, freed: false },
            SwapChainImage { image_view: 9, framebuffer: 10, in_flight: 0, freed: false },
        ]
    );
    assert_eq!(
        swapchain.pipelines,
        vec![
            (MaterialId(0), Pipeline { pipeline_layout: 11, pipeline: 12, freed: false }),
            (MaterialId(4), Pipeline { pipeline_layout: 13, pipeline: 14, freed: false }),
        ]
    );
    let recorded = calls(device.take_commands());
    assert_eq!(recorded.len(), 2 + 4 + 2 * 2 + 2 * 2);
    assert_eq!(
        recorded[..6],
        [
            DeviceCall::GetSwapchainImage { image: 2, swapchain: 1, index: 0 },
            DeviceCall::GetSwapchainImage { image: 3, swapchain: 1, index: 1 },
            DeviceCall::CreateImage {
                image: 4,
                info: ImageCreateInfo {
                    extent: EXTENT,
                    format: 126,
                    usage: 0x20,
                    initial_layout: 0,
                    sharing_mode: 0,
                },
            },
            DeviceCall::AllocateImageMemory { image: 4, memory: MemoryKind::GpuOnly },
            DeviceCall::CreateImageView {
                view: 5,
                info: ImageViewCreateInfo { image: 4, format: 126, aspect_mask: 2, layer_count: 1 },
            },
            DeviceCall::CreateRenderPass {
                render_pass: 6,
                info: RenderPassCreateInfo {
                    color: AttachmentDescription {
                        format: 50,
                        load_op: 1,
                        store_op: 0,
                        stencil_load_op: 2,
                        stencil_store_op: 1,
                        initial_layout: 0,
                        final_layout: 1000001002,
                    },
                    depth: AttachmentDescription {
                        format: 126,
                        load_op: 1,
                        store_op: 1,
                        stencil_load_op: 2,
                        stencil_store_op: 1,
                        initial_layout: 0,
                        final_layout: 3,
                    },
                    color_layout: 2,
                    depth_layout: 3,
                    dependency: SubpassDependency {
                        src_subpass: u32::MAX,
                        dst_subpass: 0,
                        src_stage_mask: 0x400,
                        src_access_mask: 0,
                        dst_stage_mask: 0x400,
                        dst_access_mask: 0x100,
                    },
                    view_mask: 3,
                },
            },
        ]
    );
    assert_eq!(
        recorded[6..10],
        [
            DeviceCall::CreateImageView {
                view: 7,
                info: ImageViewCreateInfo { image: 2, format: 50, aspect_mask: 1, layer_count: 2 },
            },
            DeviceCall::CreateFramebuffer {
                framebuffer: 8,
                info: FramebufferCreateInfo {
                    render_pass: 6,
                    color_view: 7,
                    depth_view: 5,
                    extent: EXTENT,
                    layers: 1,
                },
            },
            DeviceCall::CreateImageView {
                view: 9,
                info: ImageViewCreateInfo { image: 3, format: 50, aspect_mask: 1, layer_count: 2 },
            },
            DeviceCall::CreateFramebuffer {
                framebuffer: 10,
                info: FramebufferCreateInfo {
                    render_pass: 6,
                    color_view: 9,
                    depth_view: 5,
                    extent: EXTENT,
                    layers: 1,
                },
            },
        ]
    );
    assert_eq!(
        recorded[10..],
        [
            DeviceCall::CreatePipelineLayout { layout: 11, set_layout: 77 },
            DeviceCall::CreateGraphicsPipeline {
                pipeline: 12,
                info: GraphicsPipelineCreateInfo {
                    vertex_module: 101,
                    fragment_module: 102,
                    topology: 3,
                    extent: EXTENT,
                    polygon_mode: 0,
                    cull_mode: 2,
                    front_face: 0,
                    color_write_mask: 0xF,
                    layout: 11,
                    render_pass: 6,
                    subpass: 0,
                },
            },
            DeviceCall::CreatePipelineLayout { layout: 13, set_layout: 77 },
            DeviceCall::CreateGraphicsPipeline {
                pipeline: 14,
                info: GraphicsPipelineCreateInfo {
                    vertex_module: 103,
                    fragment_module: 104,
                    topology: 0,
                    extent: EXTENT,
                    polygon_mode: 0,
                    cull_mode: 2,
                    front_face: 0,
                    color_write_mask: 0xF,
                    layout: 13,
                    render_pass: 6,
                    subpass: 0,
                },
            },
        ]
    );
}

#[test]
fn swapchain_without_images_or_materials_still_has_its_shared_objects() {
    let mut device = Device::new();
    let swapchain = Swapchain::new(&mut device, 500, EXTENT, 0, 77, &Vec::new());
    assert!(swapchain.images.is_empty());
    assert!(swapchain.pipelines.is_empty());
    assert_eq!((swapchain.depth_image, swapchain.depth_image_view, swapchain.render_pass), (1, 2, 3));
    assert_eq!(device.take_commands().len(), 4);
}

#[test]
fn image_never_written_to_needs_no_wait() {
    let mut device = Device::new();
    let mut swapchain = Swapchain::new(&mut device, 500, EXTENT, 3, 77, &Vec::new());
    device.take_commands();
    let image = swapchain.next_image(&mut device, 1, &frame(60));
    assert_eq!(image.in_flight, 60);
    assert_eq!(image, swapchain.images[1]);
    assert_eq!(swapchain.images[0].in_flight, 0);
    assert_eq!(swapchain.images[2].in_flight, 0);
    assert!(device.take_commands().is_empty());
}

#[test]
fn image_written_to_waits_for_its_last_writer() {
    let mut device = Device::new();
    let mut swapchain = Swapchain::new(&mut device, 500, EXTENT, 3, 77, &Vec::new());
    device.take_commands();
    swapchain.next_image(&mut device, 1, &frame(60));
    let other = swapchain.next_image(&mut device, 2, &frame(61));
    assert_eq!(other.in_flight, 61);
    assert!(device.take_commands().is_empty());
    let again = swapchain.next_image(&mut device, 1, &frame(62));
    assert_eq!(again.in_flight, 62);
    assert_eq!(again.framebuffer, swapchain.images[1].framebuffer);
    assert_eq!(calls(device.take_commands()), vec![DeviceCall::WaitForFence { fence: 60 }]);
    swapchain.next_image(&mut device, 1, &frame(62));
    assert_eq!(calls(device.take_commands()), vec![DeviceCall::WaitForFence { fence: 62 }]);
}

#[test]
fn pipelines_are_added_and_removed_one_by_one() {
    let mut device = Device::new();
    let loaded = materials();
    let mut swapchain = Swapchain::new(&mut device, 500, EXTENT, 1, 77, &loaded);
    device.take_commands();
    let extra = Material { draw_type: DrawType::Lines, vertex: 105, fragment: 106, freed: false };
    swapchain.add_pipeline(&mut device, 77, MaterialId(9), &extra);
    assert_eq!(swapchain.pipelines.len(), 3);
    assert_eq!(
        swapchain.pipelines[2],
        (MaterialId(9), Pipeline { pipeline_layout: 11, pipeline: 12, freed: false })
    );
    assert_eq!(device.take_commands().len(), 2);

    swapchain.remove_pipeline(&mut device, MaterialId(4));
    assert_eq!(
        swapchain.pipelines.iter().map(|entry| entry.0).collect::<Vec<_>>(),
        vec![MaterialId(0), MaterialId(9)]
    );
    assert_eq!(
        calls(device.take_commands()),
        vec![
            DeviceCall::DestroyPipeline { pipeline: 10 },
            DeviceCall::DestroyPipelineLayout { layout: 9 },
        ]
    );

    swapchain.remove_pipeline(&mut device, MaterialId(4));
    assert_eq!(swapchain.pipelines.len(), 2);
    assert!(device.take_commands().is_empty());
}

#[test]
fn teardown_waits_then_destroys_in_reverse_of_creation() {
    let mut device = Device::new();
    let mut swapchain = Swapchain::new(&mut device, 500, EXTENT, 2, 77, &materials());
    device.take_commands();
    swapchain.free(&mut device);
    assert!(swapchain.freed);
    assert!(swapchain.pipelines.is_empty());
    assert!(swapchain.images.is_empty());
    assert_eq!(
        calls(device.take_commands()),
        vec![
            DeviceCall::DeviceWaitIdle,
            DeviceCall::DestroyImageView { view: 4 },
            DeviceCall::FreeImage { image: 3 },
            DeviceCall::DestroyPipeline { pipeline: 11 },
            DeviceCall::DestroyPipelineLayout { layout: 10 },
            DeviceCall::DestroyPipeline { pipeline: 13 },
            DeviceCall::DestroyPipelineLayout { layout: 12 },
            DeviceCall::DestroyFramebuffer { framebuffer: 7 },
            DeviceCall::DestroyImageView { view: 6 },
            DeviceCall::DestroyFramebuffer { framebuffer: 9 },
            DeviceCall::DestroyImageView { view: 8 },
            DeviceCall::DestroyRenderPass { render_pass: 5 },
            DeviceCall::DestroySwapchain { swapchain: 500 },
        ]
    );
}
