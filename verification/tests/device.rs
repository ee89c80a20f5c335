use erupt::extensions::khr_swapchain;
use erupt::vk1_0 as vk;
use the_hard_way::device;
use the_hard_way::hardware_query::QUEUE_GRAPHICS;
use the_hard_way::swapchain::{COLOR_FORMAT, DEPTH_FORMAT, VIEW_COUNT, VIEW_MASK};
use the_hard_way::{Command, Device, DeviceCall, HardwareSelection};

#[test]
fn names_start_at_one_and_never_repeat() {
    let mut device = Device::new();
    assert_eq!(device.count(), 0);
    assert_eq!(device.names_left(), u64::MAX);
    let first = device.fresh();
    let second = device.fresh();
    let third = device.create_shader_module(vec![7]);
    assert_eq!((first, second, third), (1, 2, 3));
    assert_ne!(first, device::NULL_HANDLE);
    assert_eq!(device.count(), 3);
    assert_eq!(device.names_left(), u64::MAX - 3);
}

#[test]
fn record_keeps_the_order_of_the_calls() {
    let mut device = Device::new();
    device.call(DeviceCall::DeviceWaitIdle);
    device.write_buffer(4, &[1, 2]);
    device.call(DeviceCall::ResetFence { fence: 9 });
    assert_eq!(
        device.take_commands(),
        vec![
            Command::Call(DeviceCall::DeviceWaitIdle),
            Command::WriteBuffer { buffer: 4, bytes: vec![1, 2] },
            Command::Call(DeviceCall::ResetFence { fence: 9 }),
        ]
    );
}

#[test]
fn taking_the_record_empties_it_and_keeps_the_names() {
    let mut device = Device::new();
    let name = device.fresh();
    device.call(DeviceCall::CreateSemaphore { semaphore: name });
    assert_eq!(device.take_commands().len(), 1);
    assert!(device.take_commands().is_empty());
    assert_eq!(device.fresh(), 2);
}

#[test]
fn buffer_usage_bits_are_the_drivers() {
    assert_eq!(device::BUFFER_USAGE_TRANSFER_SRC, vk::BufferUsageFlags::TRANSFER_SRC.bits());
    assert_eq!(device::BUFFER_USAGE_TRANSFER_DST, vk::BufferUsageFlags::TRANSFER_DST.bits());
    assert_eq!(device::BUFFER_USAGE_UNIFORM_BUFFER, vk::BufferUsageFlags::UNIFORM_BUFFER.bits());
    assert_eq!(device::BUFFER_USAGE_INDEX_BUFFER, vk::BufferUsageFlags::INDEX_BUFFER.bits());
    assert_eq!(device::BUFFER_USAGE_VERTEX_BUFFER, vk::BufferUsageFlags::VERTEX_BUFFER.bits());
}

#[test]
fn image_constants_are_the_drivers() {
    assert_eq!(device::FORMAT_B8G8R8A8_SRGB, vk::Format::B8G8R8A8_SRGB.0);
    assert_eq!(device::FORMAT_D32_SFLOAT, vk::Format::D32_SFLOAT.0);
    assert_eq!(COLOR_FORMAT, vk::Format::B8G8R8A8_SRGB.0);
    assert_eq!(DEPTH_FORMAT, vk::Format::D32_SFLOAT.0);
    assert_eq!(device::IMAGE_LAYOUT_UNDEFINED, vk::ImageLayout::UNDEFINED.0);
    assert_eq!(
        device::IMAGE_LAYOUT_COLOR_ATTACHMENT_OPTIMAL,
        vk::ImageLayout::COLOR_ATTACHMENT_OPTIMAL.0
    );
    assert_eq!(
        device::IMAGE_LAYOUT_DEPTH_STENCIL_ATTACHMENT_OPTIMAL,
        vk::ImageLayout::DEPTH_STENCIL_ATTACHMENT_OPTIMAL.0
    );
    assert_eq!(device::IMAGE_LAYOUT_PRESENT_SRC, vk::ImageLayout::PRESENT_SRC_KHR.0);
    assert_eq!(
        device::IMAGE_USAGE_COLOR_ATTACHMENT,
        vk::ImageUsageFlags::COLOR_ATTACHMENT.bits()
    );
    assert_eq!(
        device::IMAGE_USAGE_DEPTH_STENCIL_ATTACHMENT,
        vk::ImageUsageFlags::DEPTH_STENCIL_ATTACHMENT.bits()
    );
    assert_eq!(device::IMAGE_ASPECT_COLOR, vk::ImageAspectFlags::COLOR.bits());
    assert_eq!(device::IMAGE_ASPECT_DEPTH, vk::ImageAspectFlags::DEPTH.bits());
    assert_eq!(device::SHARING_MODE_EXCLUSIVE, vk::SharingMode::EXCLUSIVE.0);
}

#[test]
fn render_pass_constants_are_the_drivers() {
    assert_eq!(device::ATTACHMENT_LOAD_OP_CLEAR, vk::AttachmentLoadOp::CLEAR.0);
    assert_eq!(device::ATTACHMENT_LOAD_OP_DONT_CARE, vk::AttachmentLoadOp::DONT_CARE.0);
    assert_eq!(device::ATTACHMENT_STORE_OP_STORE, vk::AttachmentStoreOp::STORE.0);
    assert_eq!(device::ATTACHMENT_STORE_OP_DONT_CARE, vk::AttachmentStoreOp::DONT_CARE.0);
    assert_eq!(
        device::PIPELINE_STAGE_COLOR_ATTACHMENT_OUTPUT,
        vk::PipelineStageFlags::COLOR_ATTACHMENT_OUTPUT.bits()
    );
    assert_eq!(
        device::ACCESS_COLOR_ATTACHMENT_WRITE,
        vk::AccessFlags::COLOR_ATTACHMENT_WRITE.bits()
    );
    assert_eq!(device::SUBPASS_EXTERNAL, vk::SUBPASS_EXTERNAL);
    assert_eq!(VIEW_MASK, !(!0u32 << VIEW_COUNT));
}

#[test]
fn pipeline_constants_are_the_drivers() {
    assert_eq!(device::PRIMITIVE_TOPOLOGY_POINT_LIST, vk::PrimitiveTopology::POINT_LIST.0);
    assert_eq!(device::PRIMITIVE_TOPOLOGY_LINE_LIST, vk::PrimitiveTopology::LINE_LIST.0);
    assert_eq!(device::PRIMITIVE_TOPOLOGY_TRIANGLE_LIST, vk::PrimitiveTopology::TRIANGLE_LIST.0);
    assert_eq!(device::SHADER_STAGE_VERTEX, vk::ShaderStageFlags::VERTEX.bits());
    assert_eq!(device::SHADER_STAGE_FRAGMENT, vk::ShaderStageFlags::FRAGMENT.bits());
    assert_eq!(device::CULL_MODE_BACK, vk::CullModeFlags::BACK.bits());
    assert_eq!(device::FRONT_FACE_COUNTER_CLOCKWISE, vk::FrontFace::COUNTER_CLOCKWISE.0);
    assert_eq!(device::POLYGON_MODE_FILL, vk::PolygonMode::FILL.0);
    assert_eq!(
        device::COLOR_COMPONENT_RGBA,
        (vk::ColorComponentFlags::R
            | vk::ColorComponentFlags::G
            | vk::ColorComponentFlags::B
            | vk::ColorComponentFlags::A)
            .bits()
    );
}

#[test]
fn stale_surface_code_is_the_drivers() {
    assert_eq!(device::ERROR_OUT_OF_DATE, vk::Result::ERROR_OUT_OF_DATE_KHR.0);
    assert_eq!(khr_swapchain::KHR_SWAPCHAIN_SPEC_VERSION > 0, true);
    assert_eq!(device::NULL_HANDLE, vk::Fence::null().0);
}

#[test]
fn first_graphics_family_is_selected() {
    assert_eq!(QUEUE_GRAPHICS, vk::QueueFlags::GRAPHICS.bits());
    let compute = vk::QueueFlags::COMPUTE.bits();
    let transfer = vk::QueueFlags::TRANSFER.bits();
    assert_eq!(
        HardwareSelection::query(42, &[transfer, compute | QUEUE_GRAPHICS, QUEUE_GRAPHICS]),
        Some(HardwareSelection { physical_device: 42, queue_family: 1 })
    );
    assert_eq!(
        HardwareSelection::query(42, &[QUEUE_GRAPHICS]),
        Some(HardwareSelection { physical_device: 42, queue_family: 0 })
    );
}

#[test]
fn device_without_graphics_family_is_not_selected() {
    let compute = vk::QueueFlags::COMPUTE.bits();
    assert_eq!(HardwareSelection::query(42, &[compute, compute]), None);
    assert_eq!(HardwareSelection::query(42, &[]), None);
}
