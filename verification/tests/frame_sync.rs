use the_hard_way::{Command, Device, DeviceCall, EngineError, Frame, FrameSync};

#[test]
fn ring_of_two_slots_alternates() {
    let mut device = Device::new();
    let mut sync = FrameSync::new(&mut device, 2).unwrap();
    assert_eq!(sync.frame_idx, 0);
    let mut visited = vec![sync.frame_idx];
    for _ in 0..5 {
        let (index, frame) = sync.next_frame();
        assert_eq!(index, sync.frame_idx);
        assert_eq!(frame.in_flight_fence, sync.fence());
        assert_eq!(frame.image_available, sync.image_available());
        assert_eq!(frame.render_finished, sync.render_finished());
        visited.push(index);
    }
    assert_eq!(visited, vec![0, 1, 0, 1, 0, 1]);
}

#[test]
fn ring_of_three_slots_goes_round() {
    let mut device = Device::new();
    let mut sync = FrameSync::new(&mut device, 3).unwrap();
    let mut visited = Vec::new();
    for _ in 0..7 {
        visited.push(sync.next_frame().0);
    }
    assert_eq!(visited, vec![1, 2, 0, 1, 2, 0, 1]);
}

#[test]
fn ring_of_one_slot_stays_on_it() {
    let mut device = Device::new();
    let mut sync = FrameSync::new(&mut device, 1).unwrap();
    for _ in 0..3 {
        let (index, frame) = sync.next_frame();
        assert_eq!(index, 0);
        assert_eq!(
            frame,
            Frame { in_flight_fence: 3, image_available: 1, render_finished: 2 }
        );
    }
}

#[test]
fn ring_without_slots_is_refused() {
    let mut device = Device::new();
    assert!(matches!(FrameSync::new(&mut device, 0), Err(EngineError::InvalidArgument)));
    assert_eq!(device.count(), 0);
    assert!(device.take_commands().is_empty());
}

#[test]
fn ring_creates_semaphores_then_signalled_fences() {
    let mut device = Device::new();
    let sync = FrameSync::new(&mut device, 2).unwrap();
    assert_eq!(sync.image_available_semaphores, vec![1, 2]);
    assert_eq!(sync.render_finished_semaphores, vec![3, 4]);
    assert_eq!(sync.in_flight_fences, vec![5, 6]);
    assert_eq!(sync.frames_in_flight, 2);
    assert!(!sync.freed);
    assert_eq!(device.count(), 6);
    assert_eq!(
        device.take_commands(),
        vec![
            Command::Call(DeviceCall::CreateSemaphore { semaphore: 1 }),
            Command::Call(DeviceCall::CreateSemaphore { semaphore: 2 }),
            Command::Call(DeviceCall::CreateSemaphore { semaphore: 3 }),
            Command::Call(DeviceCall::CreateSemaphore { semaphore: 4 }),
            Command::Call(DeviceCall::CreateFence { fence: 5, signaled: true }),
            Command::Call(DeviceCall::CreateFence { fence: 6, signaled: true }),
        ]
    );
}

#[test]
fn slot_holds_the_objects_made_for_it() {
    let mut device = Device::new();
    let mut sync = FrameSync::new(&mut device, 2).unwrap();
    assert_eq!(sync.image_available(), 1);
    assert_eq!(sync.render_finished(), 3);
    assert_eq!(sync.fence(), 5);
    let (index, frame) = sync.next_frame();
    assert_eq!(index, 1);
    assert_eq!(frame, Frame { in_flight_fence: 6, image_available: 2, render_finished: 4 });
}

#[test]
fn freeing_the_ring_destroys_every_object_once() {
    let mut device = Device::new();
    let mut sync = FrameSync::new(&mut device, 2).unwrap();
    device.take_commands();
    sync.free(&mut device);
    assert!(sync.freed);
    assert_eq!(
        device.take_commands(),
        vec![
            Command::Call(DeviceCall::DestroySemaphore { semaphore: 1 }),
            Command::Call(DeviceCall::DestroySemaphore { semaphore: 2 }),
            Command::Call(DeviceCall::DestroySemaphore { semaphore: 3 }),
            Command::Call(DeviceCall::DestroySemaphore { semaphore: 4 }),
            Command::Call(DeviceCall::DestroyFence { fence: 5 }),
            Command::Call(DeviceCall::DestroyFence { fence: 6 }),
        ]
    );
    assert_eq!(device.count(), 6);
}
