use the_hard_way::device::{
    BufferCreateInfo, MemoryKind, SubmitInfo, BUFFER_USAGE_TRANSFER_DST,
    BUFFER_USAGE_TRANSFER_SRC, BUFFER_USAGE_VERTEX_BUFFER, SHARING_MODE_EXCLUSIVE,
};
use the_hard_way::{AllocatedBuffer, Command, Device, DeviceCall, EngineError};

fn vertex_info() -> BufferCreateInfo {
    BufferCreateInfo {
        size: 0,
        usage: BUFFER_USAGE_VERTEX_BUFFER,
        sharing_mode: SHARING_MODE_EXCLUSIVE,
    }
}

#[test]
fn buffer_of_no_elements_is_refused_and_never_allocated() {
    let mut device = Device::new();
    let made = AllocatedBuffer::new(&mut device, 0, 24, vertex_info());
    assert!(matches!(made, Err(EngineError::InvalidArgument)));
    assert_eq!(device.count(), 0);
    assert!(device.take_commands().is_empty());
}

#[test]
fn new_buffer_is_sized_dynamic_and_a_transfer_source() {
    let mut device = Device::new();
    let buffer = AllocatedBuffer::new(&mut device, 3, 24, vertex_info()).unwrap();
    let info = BufferCreateInfo {
        size: 72,
        usage: BUFFER_USAGE_VERTEX_BUFFER | BUFFER_USAGE_TRANSFER_SRC,
        sharing_mode: SHARING_MODE_EXCLUSIVE,
    };
    assert_eq!(buffer.buffer(), 1);
    assert_eq!(buffer.create_info(), info);
    assert!(buffer.is_dynamic());
    assert!(!buffer.is_freed());
    assert_eq!(
        device.take_commands(),
        vec![
            Command::Call(DeviceCall::CreateBuffer { buffer: 1, info }),
            Command::Call(DeviceCall::AllocateBufferMemory {
                buffer: 1,
                memory: MemoryKind::Dynamic
            }),
        ]
    );
}

#[test]
fn write_records_exactly_the_bytes_given() {
    for count in 1..6usize {
        let mut device = Device::new();
        let buffer = AllocatedBuffer::new(&mut device, count, 4, vertex_info()).unwrap();
        device.take_commands();
        let data: Vec<u8> = (0..(4 * count) as u8).map(|b| b.wrapping_mul(37)).collect();
        assert_eq!(buffer.map(&mut device, &data), Ok(()));
        assert_eq!(
            device.take_commands(),
            vec![Command::WriteBuffer { buffer: buffer.buffer(), bytes: data }]
        );
    }
}

#[test]
fn write_of_fewer_bytes_than_the_buffer_holds_is_taken() {
    let mut device = Device::new();
    let buffer = AllocatedBuffer::new(&mut device, 2, 4, vertex_info()).unwrap();
    device.take_commands();
    assert_eq!(buffer.map(&mut device, &[9, 8, 7]), Ok(()));
    assert_eq!(
        device.take_commands(),
        vec![Command::WriteBuffer { buffer: 1, bytes: vec![9, 8, 7] }]
    );
}

#[test]
fn write_that_does_not_fit_is_refused_whole() {
    let mut device = Device::new();
    let buffer = AllocatedBuffer::new(&mut device, 2, 4, vertex_info()).unwrap();
    device.take_commands();
    assert_eq!(buffer.map(&mut device, &[0; 9]), Err(EngineError::InvalidArgument));
    assert!(device.take_commands().is_empty());
}

#[test]
fn promotion_copies_then_releases_the_staging_buffer() {
    let mut device = Device::new();
    let staging = AllocatedBuffer::new(&mut device, 3, 24, vertex_info()).unwrap();
    device.take_commands();
    let promoted = staging.gpu_only(&mut device, 900, 901);
    let info = BufferCreateInfo {
        size: 72,
        usage: BUFFER_USAGE_VERTEX_BUFFER | BUFFER_USAGE_TRANSFER_SRC | BUFFER_USAGE_TRANSFER_DST,
        sharing_mode: SHARING_MODE_EXCLUSIVE,
    };
    assert_eq!(promoted.buffer(), 2);
    assert_eq!(promoted.create_info(), info);
    assert!(!promoted.is_dynamic());
    assert!(!promoted.is_freed());
    assert_eq!(
        device.take_commands(),
        vec![
            Command::Call(DeviceCall::CreateBuffer { buffer: 2, info }),
            Command::Call(DeviceCall::AllocateBufferMemory {
                buffer: 2,
                memory: MemoryKind::GpuOnly
            }),
            Command::Call(DeviceCall::AllocateCommandBuffer { command_buffer: 3, pool: 900 }),
            Command::Call(DeviceCall::BeginCommandBuffer {
                command_buffer: 3,
                one_time_submit: true
            }),
            Command::Call(DeviceCall::CmdCopyBuffer {
                command_buffer: 3,
                src: 1,
                dst: 2,
                size: 72
            }),
            Command::Call(DeviceCall::EndCommandBuffer { command_buffer: 3 }),
            Command::Call(DeviceCall::QueueSubmit {
                queue: 901,
                submit: SubmitInfo {
                    command_buffer: 3,
                    wait_semaphore: None,
                    wait_stage: 0,
                    signal_semaphore: None,
                    fence: None,
                },
            }),
            Command::Call(DeviceCall::QueueWaitIdle { queue: 901 }),
            Command::Call(DeviceCall::FreeCommandBuffer { command_buffer: 3, pool: 900 }),
            Command::Call(DeviceCall::DeviceWaitIdle),
            Command::Call(DeviceCall::FreeBuffer { buffer: 1 }),
        ]
    );
}

#[test]
fn write_to_a_promoted_buffer_fails_as_immutable() {
    let mut device = Device::new();
    let staging = AllocatedBuffer::new(&mut device, 1, 4, vertex_info()).unwrap();
    assert_eq!(staging.map(&mut device, &[1, 2, 3, 4]), Ok(()));
    let promoted = staging.gpu_only(&mut device, 900, 901);
    device.take_commands();
    assert_eq!(promoted.map(&mut device, &[1, 2, 3, 4]), Err(EngineError::ImmutableBuffer));
    assert_eq!(promoted.map(&mut device, &[]), Err(EngineError::ImmutableBuffer));
    assert!(device.take_commands().is_empty());
}

#[test]
fn free_waits_for_the_device_then_releases() {
    let mut device = Device::new();
    let mut buffer = AllocatedBuffer::new(&mut device, 1, 4, vertex_info()).unwrap();
    device.take_commands();
    buffer.free(&mut device);
    assert!(buffer.is_freed());
    assert!(buffer.is_dynamic());
    assert_eq!(buffer.buffer(), 1);
    assert_eq!(
        device.take_commands(),
        vec![
            Command::Call(DeviceCall::DeviceWaitIdle),
            Command::Call(DeviceCall::FreeBuffer { buffer: 1 }),
        ]
    );
}

#[test]
fn buffer_without_stride_has_no_size() {
    let mut device = Device::new();
    let buffer = AllocatedBuffer::new(&mut device, 5, 0, vertex_info()).unwrap();
    assert_eq!(buffer.create_info().size, 0);
    assert_eq!(buffer.map(&mut device, &[1]), Err(EngineError::InvalidArgument));
}
