use the_hard_way::device::{
    Extent2D, GraphicsPipelineCreateInfo, COLOR_COMPONENT_RGBA, CULL_MODE_BACK,
    FRONT_FACE_COUNTER_CLOCKWISE, POLYGON_MODE_FILL,
};
use the_hard_way::pipeline::{SPV_MAGIC_NUMBER, SPV_MAGIC_NUMBER_SWAPPED};
use the_hard_way::{Command, Device, DeviceCall, DrawType, EngineError, Material, Pipeline};

const LITTLE: [u8; 12] = [0x03, 0x02, 0x23, 0x07, 0x01, 0x02, 0x03, 0x04, 0xff, 0x00, 0x00, 0x80];
const BIG: [u8; 12] = [0x07, 0x23, 0x02, 0x03, 0x04, 0x03, 0x02, 0x01, 0x80, 0x00, 0x00, 0xff];
const WORDS: [u32; 3] = [0x0723_0203, 0x0403_0201, 0x8000_00ff];

#[test]
fn material_decodes_little_endian_shaders() {
    let mut device = Device::new();
    let material = Material::new(&mut device, &LITTLE, &LITTLE[..4], DrawType::Lines).unwrap();
    assert_eq!(
        material,
        Material { draw_type: DrawType::Lines, vertex: 1, fragment: 2, freed: false }
    );
    assert_eq!(
        device.take_commands(),
        vec![
            Command::CreateShaderModule { module: 1, code: WORDS.to_vec() },
            Command::CreateShaderModule { module: 2, code: vec![SPV_MAGIC_NUMBER] },
        ]
    );
}

#[test]
fn material_decodes_big_endian_shaders_by_swapping_every_word() {
    let mut device = Device::new();
    let material = Material::new(&mut device, &BIG, &LITTLE, DrawType::Points).unwrap();
    assert_eq!(material.vertex, 1);
    assert_eq!(material.fragment, 2);
    assert_eq!(
        device.take_commands(),
        vec![
            Command::CreateShaderModule { module: 1, code: WORDS.to_vec() },
            Command::CreateShaderModule { module: 2, code: WORDS.to_vec() },
        ]
    );
}

#[test]
fn magic_numbers_are_each_other_byte_swapped() {
    assert_eq!(SPV_MAGIC_NUMBER.swap_bytes(), SPV_MAGIC_NUMBER_SWAPPED);
    assert_eq!(u32::from_le_bytes([LITTLE[0], LITTLE[1], LITTLE[2], LITTLE[3]]), SPV_MAGIC_NUMBER);
    assert_eq!(u32::from_le_bytes([BIG[0], BIG[1], BIG[2], BIG[3]]), SPV_MAGIC_NUMBER_SWAPPED);
}

#[test]
fn material_refuses_code_that_is_not_whole_words() {
    let mut device = Device::new();
    let made = Material::new(&mut device, &LITTLE[..11], &LITTLE, DrawType::Triangles);
    assert_eq!(made, Err(EngineError::InvalidShader));
    assert_eq!(device.count(), 0);
    assert!(device.take_commands().is_empty());
}

#[test]
fn material_refuses_code_without_the_magic_number() {
    let mut device = Device::new();
    let made = Material::new(&mut device, &LITTLE[4..], &LITTLE, DrawType::Triangles);
    assert_eq!(made, Err(EngineError::InvalidShader));
    assert!(device.take_commands().is_empty());
}

#[test]
fn material_refuses_empty_code() {
    let mut device = Device::new();
    assert_eq!(
        Material::new(&mut device, &[], &LITTLE, DrawType::Triangles),
        Err(EngineError::InvalidShader)
    );
    assert!(device.take_commands().is_empty());
}

#[test]
fn material_with_a_bad_fragment_shader_creates_no_module_at_all() {
    let mut device = Device::new();
    let made = Material::new(&mut device, &LITTLE, &[1, 2, 3, 4], DrawType::Triangles);
    assert_eq!(made, Err(EngineError::InvalidShader));
    assert_eq!(device.count(), 0);
    assert!(device.take_commands().is_empty());
}

#[test]
fn material_free_destroys_fragment_then_vertex_module() {
    let mut device = Device::new();
    let mut material = Material::new(&mut device, &LITTLE, &LITTLE, DrawType::Triangles).unwrap();
    device.take_commands();
    material.free(&mut device);
    assert!(material.freed);
    assert_eq!(
        device.take_commands(),
        vec![
            Command::Call(DeviceCall::DestroyShaderModule { module: 2 }),
            Command::Call(DeviceCall::DestroyShaderModule { module: 1 }),
        ]
    );
}

#[test]
fn draw_types_map_to_list_topologies() {
    assert_eq!(DrawType::Triangles.topology(), 3);
    assert_eq!(DrawType::Lines.topology(), 1);
    assert_eq!(DrawType::Points.topology(), 0);
    assert_eq!(DrawType::Triangles.topology(), erupt::vk1_0::PrimitiveTopology::TRIANGLE_LIST.0);
    assert_eq!(DrawType::Lines.topology(), erupt::vk1_0::PrimitiveTopology::LINE_LIST.0);
    assert_eq!(DrawType::Points.topology(), erupt::vk1_0::PrimitiveTopology::POINT_LIST.0);
}

#[test]
fn pipeline_is_created_after_its_layout() {
    let mut device = Device::new();
    let material = Material { draw_type: DrawType::Lines, vertex: 71, fragment: 72, freed: false };
    let extent = Extent2D { width: 640, height: 480 };
    let pipeline = Pipeline::new(&mut device, &material, 50, 60, extent);
    assert_eq!(pipeline, Pipeline { pipeline: 2, pipeline_layout: 1, freed: false });
    assert_eq!(
        device.take_commands(),
        vec![
            Command::Call(DeviceCall::CreatePipelineLayout { layout: 1, set_layout: 60 }),
            Command::Call(DeviceCall::CreateGraphicsPipeline {
                pipeline: 2,
                info: GraphicsPipelineCreateInfo {
                    vertex_module: 71,
                    fragment_module: 72,
                    topology: 1,
                    extent,
                    polygon_mode: POLYGON_MODE_FILL,
                    cull_mode: CULL_MODE_BACK,
                    front_face: FRONT_FACE_COUNTER_CLOCKWISE,
                    color_write_mask: COLOR_COMPONENT_RGBA,
                    layout: 1,
                    render_pass: 50,
                    subpass: 0,
                },
            }),
        ]
    );
}

#[test]
fn pipeline_free_destroys_pipeline_then_layout() {
    let mut device = Device::new();
    let material = Material { draw_type: DrawType::Lines, vertex: 71, fragment: 72, freed: false };
    let mut pipeline =
        Pipeline::new(&mut device, &material, 50, 60, Extent2D { width: 1, height: 1 });
    device.take_commands();
    pipeline.free(&mut device);
    assert!(pipeline.freed);
    assert_eq!(
        device.take_commands(),
        vec![
            Command::Call(DeviceCall::DestroyPipeline { pipeline: 2 }),
            Command::Call(DeviceCall::DestroyPipelineLayout { layout: 1 }),
        ]
    );
}

#[test]
fn error_messages_tell_the_errors_apart() {
    let all = [
        EngineError::InvalidArgument,
        EngineError::ImmutableBuffer,
        EngineError::InvalidShader,
        EngineError::UnexpectedEvent,
        EngineError::DeviceError(-4),
    ];
    for (i, a) in all.iter().enumerate() {
        assert!(!a.message().is_empty());
        for b in &all[i + 1..] {
            assert_ne!(a.message(), b.message());
        }
    }
    assert_eq!(EngineError::ImmutableBuffer.message(), "cannot write to gpu-only memory");
}
