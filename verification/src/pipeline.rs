//! Materials, and the pipelines compiled from them.
//!
//! A material is a pair of shader modules and a way of assembling primitives. It outlives any
//! swapchain. A pipeline is a material baked against one swapchain's render pass and extent; it
//! lives and dies with that swapchain.
use crate::device::{
    calls, CommandView, Device, DeviceCall, Extent2D, GraphicsPipelineCreateInfo,
    COLOR_COMPONENT_RGBA, CULL_MODE_BACK, FRONT_FACE_COUNTER_CLOCKWISE, POLYGON_MODE_FILL,
    PRIMITIVE_TOPOLOGY_LINE_LIST, PRIMITIVE_TOPOLOGY_POINT_LIST, PRIMITIVE_TOPOLOGY_TRIANGLE_LIST,
};
use crate::error::EngineError;
use vstd::prelude::*;

verus! {

/// The first word of every SPIR-V module.
pub const SPV_MAGIC_NUMBER: u32 = 0x07230203;

/// The first word of a SPIR-V module whose words are stored most significant byte first, read
/// least significant byte first.
pub const SPV_MAGIC_NUMBER_SWAPPED: u32 = 0x03022307;

/// Word `i` of `bytes`, least significant byte first.
pub open spec fn word_le(bytes: Seq<u8>, i: int) -> u32 {
    (bytes[4 * i] + 0x100 * bytes[4 * i + 1] + 0x1_0000 * bytes[4 * i + 2] + 0x100_0000 * bytes[4
        * i + 3]) as u32
}

/// Word `i` of `bytes`, most significant byte first.
pub open spec fn word_be(bytes: Seq<u8>, i: int) -> u32 {
    (bytes[4 * i + 3] + 0x100 * bytes[4 * i + 2] + 0x1_0000 * bytes[4 * i + 1] + 0x100_0000
        * bytes[4 * i]) as u32
}

/// Whether `bytes` is a whole number of words that starts with the magic word, in either byte
/// order.
pub open spec fn spv_decodable(bytes: Seq<u8>) -> bool {
    &&& bytes.len() % 4 == 0
    &&& bytes.len() >= 4
    &&& (word_le(bytes, 0) == SPV_MAGIC_NUMBER || word_le(bytes, 0) == SPV_MAGIC_NUMBER_SWAPPED)
}

/// The words of `bytes`, read in the byte order that its magic word shows.
pub open spec fn spv_words(bytes: Seq<u8>) -> Seq<u32> {
    Seq::new(
        (bytes.len() / 4) as nat,
        |i: int|
            if word_le(bytes, 0) == SPV_MAGIC_NUMBER {
                word_le(bytes, i)
            } else {
                word_be(bytes, i)
            },
    )
}

/// `erupt::utils::decode_spv`, with its error dropped. It refuses input that is not a
/// multiple of four bytes long, reads the rest as little-endian words, and then looks at the
/// first: the magic number passes, the byte-swapped magic number has every word byte-swapped,
/// anything else (no word at all included) is refused.
#[verifier::external_body]
fn decode_spv(bytes: &[u8]) -> (decoded: Option<Vec<u32>>)
    ensures
        decoded is Some <==> spv_decodable(bytes@),
        decoded is Some ==> decoded->Some_0@ == spv_words(bytes@),
{
    erupt::utils::decode_spv(bytes).ok()
}

/// How the vertices of a draw are assembled into primitives.
#[derive(Clone, Copy, Debug, PartialEq, Eq, Structural)]
pub enum DrawType {
    Triangles,
    Lines,
    Points,
}

impl DrawType {
    /// The device's primitive topology for this way of drawing.
    pub open spec fn spec_topology(self) -> i32 {
        match self {
            DrawType::Triangles => PRIMITIVE_TOPOLOGY_TRIANGLE_LIST,
            DrawType::Points => PRIMITIVE_TOPOLOGY_POINT_LIST,
            DrawType::Lines => PRIMITIVE_TOPOLOGY_LINE_LIST,
        }
    }

    /// The device's primitive topology for this way of drawing.
    #[verifier::when_used_as_spec(spec_topology)]
    pub fn topology(self) -> (topology: i32)
        ensures
            topology == self.spec_topology(),
    {
        match self {
            DrawType::Triangles => PRIMITIVE_TOPOLOGY_TRIANGLE_LIST,
            DrawType::Points => PRIMITIVE_TOPOLOGY_POINT_LIST,
            DrawType::Lines => PRIMITIVE_TOPOLOGY_LINE_LIST,
        }
    }
}

/// A set of drawing parameters, to be turned into a pipeline for each swapchain.
#[derive(Clone, Copy, Debug, PartialEq, Eq, Structural)]
pub struct Material {
    pub draw_type: DrawType,
    pub vertex: u64,
    pub fragment: u64,
    pub freed: bool,
}

impl Material {
    /// Decodes both shaders and creates a module for each, the vertex shader first.
    ///
    /// Both shaders are decoded before anything reaches the device: bad code costs nothing.
    pub fn new(device: &mut Device, vertex_src: &[u8], fragment_src: &[u8], draw_type: DrawType) -> (made:
        Result<Material, EngineError>)
        requires
            old(device).headroom() >= 2,
        ensures
            made is Ok <==> spv_decodable(vertex_src@) && spv_decodable(fragment_src@),
            made is Err ==> made->Err_0 == EngineError::InvalidShader && *final(device) == *old(
                device,
            ),
            made is Ok ==> ({
                let material = made->Ok_0;
                &&& material.draw_type == draw_type
                &&& material.vertex == old(device).issued() + 1
                &&& material.fragment == old(device).issued() + 2
                &&& !material.freed
                &&& final(device).extends(
                    old(device),
                    seq![
                        CommandView::CreateShaderModule {
                            module: material.vertex,
                            code: spv_words(vertex_src@),
                        },
                        CommandView::CreateShaderModule {
                            module: material.fragment,
                            code: spv_words(fragment_src@),
                        },
                    ],
                    2,
                )
            }),
    {
        let vert_decoded = match decode_spv(vertex_src) {
            Some(words) => words,
            None => { return Err(EngineError::InvalidShader); },
        };
        let frag_decoded = match decode_spv(fragment_src) {
            Some(words) => words,
            None => { return Err(EngineError::InvalidShader); },
        };
        let vertex = device.create_shader_module(vert_decoded);
        let fragment = device.create_shader_module(frag_decoded);
        proof {
            assert(device.log() =~= old(device).log() + seq![
                CommandView::CreateShaderModule { module: vertex, code: spv_words(vertex_src@) },
                CommandView::CreateShaderModule { module: fragment, code: spv_words(fragment_src@) },
            ]);
        }
        Ok(Material { draw_type, vertex, fragment, freed: false })
    }

    /// The calls that destroy the two modules, the fragment shader's first.
    pub open spec fn teardown(&self) -> Seq<CommandView> {
        calls(
            seq![
                DeviceCall::DestroyShaderModule { module: self.fragment },
                DeviceCall::DestroyShaderModule { module: self.vertex },
            ],
        )
    }

    /// Destroys both shader modules and marks the material freed.
    pub fn free(&mut self, device: &mut Device)
        requires
            !old(self).freed,
        ensures
            *final(self) == (Material { freed: true, ..*old(self) }),
            final(device).extends(old(device), old(self).teardown(), 0),
    {
        device.call(DeviceCall::DestroyShaderModule { module: self.fragment });
        device.call(DeviceCall::DestroyShaderModule { module: self.vertex });
        self.freed = true;
        proof {
            assert(device.log() =~= old(device).log() + old(self).teardown());
        }
    }
}

/// A pipeline that can draw objects with the material it was made from, into the render pass it
/// was made for.
#[derive(Clone, Copy, Debug, PartialEq, Eq, Structural)]
pub struct Pipeline {
    pub pipeline: u64,
    pub pipeline_layout: u64,
    pub freed: bool,
}

impl Pipeline {
    /// The parameters of the pipeline that draws `material` into `render_pass` at `extent`:
    /// filled polygons, back faces culled, counter-clockwise front faces, all four colour
    /// channels written, in subpass 0.
    pub open spec fn info(
        material: &Material,
        layout: u64,
        render_pass: u64,
        extent: Extent2D,
    ) -> GraphicsPipelineCreateInfo {
        GraphicsPipelineCreateInfo {
            vertex_module: material.vertex,
            fragment_module: material.fragment,
            topology: material.draw_type.spec_topology(),
            extent,
            polygon_mode: POLYGON_MODE_FILL,
            cull_mode: CULL_MODE_BACK,
            front_face: FRONT_FACE_COUNTER_CLOCKWISE,
            color_write_mask: COLOR_COMPONENT_RGBA,
            layout,
            render_pass,
            subpass: 0,
        }
    }

    /// The calls that create a pipeline named `pipeline` with a layout named `layout`.
    pub open spec fn creation(
        material: &Material,
        layout: u64,
        pipeline: u64,
        render_pass: u64,
        descriptor_set_layout: u64,
        extent: Extent2D,
    ) -> Seq<CommandView> {
        calls(
            seq![
                DeviceCall::CreatePipelineLayout { layout, set_layout: descriptor_set_layout },
                DeviceCall::CreateGraphicsPipeline {
                    pipeline,
                    info: Self::info(material, layout, render_pass, extent),
                },
            ],
        )
    }

    /// Creates the pipeline layout, then the pipeline itself.
    pub fn new(
        device: &mut Device,
        material: &Material,
        render_pass: u64,
        descriptor_set_layout: u64,
        extent: Extent2D,
    ) -> (made: Pipeline)
        requires
            old(device).headroom() >= 2,
        ensures
            made.pipeline_layout == old(device).issued() + 1,
            made.pipeline == old(device).issued() + 2,
            !made.freed,
            final(device).extends(
                old(device),
                Self::creation(
                    material,
                    made.pipeline_layout,
                    made.pipeline,
                    render_pass,
                    descriptor_set_layout,
                    extent,
                ),
                2,
            ),
    {
        let pipeline_layout = device.fresh();
        let pipeline = device.fresh();
        let info = GraphicsPipelineCreateInfo {
            vertex_module: material.vertex,
            fragment_module: material.fragment,
            topology: material.draw_type.topology(),
            extent,
            polygon_mode: POLYGON_MODE_FILL,
            cull_mode: CULL_MODE_BACK,
            front_face: FRONT_FACE_COUNTER_CLOCKWISE,
            color_write_mask: COLOR_COMPONENT_RGBA,
            layout: pipeline_layout,
            render_pass,
            subpass: 0,
        };
        device.call(
            DeviceCall::CreatePipelineLayout {
                layout: pipeline_layout,
                set_layout: descriptor_set_layout,
            },
        );
        device.call(DeviceCall::CreateGraphicsPipeline { pipeline, info });
        proof {
            assert(device.log() =~= old(device).log() + Self::creation(
                material,
                pipeline_layout,
                pipeline,
                render_pass,
                descriptor_set_layout,
                extent,
            ));
        }
        Pipeline { pipeline, pipeline_layout, freed: false }
    }

    /// The calls that destroy the pipeline, then its layout.
    pub open spec fn teardown(&self) -> Seq<CommandView> {
        calls(
            seq![
                DeviceCall::DestroyPipeline { pipeline: self.pipeline },
                DeviceCall::DestroyPipelineLayout { layout: self.pipeline_layout },
            ],
        )
    }

    /// Destroys the pipeline and its layout and marks the pipeline freed.
    pub fn free(&mut self, device: &mut Device)
        requires
            !old(self).freed,
        ensures
            *final(self) == (Pipeline { freed: true, ..*old(self) }),
            final(device).extends(old(device), old(self).teardown(), 0),
    {
        device.call(DeviceCall::DestroyPipeline { pipeline: self.pipeline });
        device.call(DeviceCall::DestroyPipelineLayout { layout: self.pipeline_layout });
        self.freed = true;
        proof {
            assert(device.log() =~= old(device).log() + old(self).teardown());
        }
    }
}

} // verus!
