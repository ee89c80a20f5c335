//! The recording device: the vocabulary of device calls, and the record they are kept in.
//!
//! Handles are plain numbers. The library names every object at the moment it records the call
//! that creates it; zero names nothing. Whoever replays the record keeps the table from these
//! names to the driver's own handles.
use vstd::prelude::*;

verus! {

/// The handle that names no object.
pub const NULL_HANDLE: u64 = 0;

// The driver's numbers for the enumerants and bits that the engine uses, under the driver's
// names.

pub const BUFFER_USAGE_TRANSFER_SRC: u32 = 0x1;

pub const BUFFER_USAGE_TRANSFER_DST: u32 = 0x2;

pub const BUFFER_USAGE_UNIFORM_BUFFER: u32 = 0x10;

pub const BUFFER_USAGE_INDEX_BUFFER: u32 = 0x40;

pub const BUFFER_USAGE_VERTEX_BUFFER: u32 = 0x80;

pub const SHARING_MODE_EXCLUSIVE: i32 = 0;

pub const FORMAT_B8G8R8A8_SRGB: i32 = 50;

pub const FORMAT_D32_SFLOAT: i32 = 126;

pub const IMAGE_LAYOUT_UNDEFINED: i32 = 0;

pub const IMAGE_LAYOUT_COLOR_ATTACHMENT_OPTIMAL: i32 = 2;

pub const IMAGE_LAYOUT_DEPTH_STENCIL_ATTACHMENT_OPTIMAL: i32 = 3;

pub const IMAGE_LAYOUT_PRESENT_SRC: i32 = 1000001002;

pub const IMAGE_USAGE_COLOR_ATTACHMENT: u32 = 0x10;

pub const IMAGE_USAGE_DEPTH_STENCIL_ATTACHMENT: u32 = 0x20;

pub const IMAGE_ASPECT_COLOR: u32 = 0x1;

pub const IMAGE_ASPECT_DEPTH: u32 = 0x2;

pub const ATTACHMENT_LOAD_OP_CLEAR: i32 = 1;

pub const ATTACHMENT_LOAD_OP_DONT_CARE: i32 = 2;

pub const ATTACHMENT_STORE_OP_STORE: i32 = 0;

pub const ATTACHMENT_STORE_OP_DONT_CARE: i32 = 1;

pub const PRIMITIVE_TOPOLOGY_POINT_LIST: i32 = 0;

pub const PRIMITIVE_TOPOLOGY_LINE_LIST: i32 = 1;

pub const PRIMITIVE_TOPOLOGY_TRIANGLE_LIST: i32 = 3;

pub const PIPELINE_STAGE_COLOR_ATTACHMENT_OUTPUT: u32 = 0x400;

pub const ACCESS_COLOR_ATTACHMENT_WRITE: u32 = 0x100;

pub const SHADER_STAGE_VERTEX: u32 = 0x1;

pub const SHADER_STAGE_FRAGMENT: u32 = 0x10;

pub const CULL_MODE_BACK: u32 = 0x2;

pub const FRONT_FACE_COUNTER_CLOCKWISE: i32 = 0;

pub const POLYGON_MODE_FILL: i32 = 0;

pub const COLOR_COMPONENT_RGBA: u32 = 0xF;

pub const SUBPASS_EXTERNAL: u32 = 0xFFFF_FFFF;

/// The driver's code for a surface that no longer matches its swapchain.
pub const ERROR_OUT_OF_DATE: i32 = -1000001004;

/// Which kind of memory the allocator is asked to search for.
#[derive(Clone, Copy, Debug, PartialEq, Eq, Structural)]
pub enum MemoryKind {
    /// Host-visible and coherent: the CPU can map it and write to it.
    Dynamic,
    /// Device-local: fast for the GPU, not mappable.
    GpuOnly,
}

/// A size in pixels.
#[derive(Clone, Copy, Debug, PartialEq, Eq, Structural)]
pub struct Extent2D {
    pub width: u32,
    pub height: u32,
}

/// What a buffer is created with.
#[derive(Clone, Copy, Debug, PartialEq, Eq, Structural)]
pub struct BufferCreateInfo {
    /// Size in bytes.
    pub size: u64,
    /// Bits of `BUFFER_USAGE_*`.
    pub usage: u32,
    pub sharing_mode: i32,
}

/// A two-dimensional image with one mip level, one layer and one sample per pixel.
#[derive(Clone, Copy, Debug, PartialEq, Eq, Structural)]
pub struct ImageCreateInfo {
    pub extent: Extent2D,
    pub format: i32,
    pub usage: u32,
    pub initial_layout: i32,
    pub sharing_mode: i32,
}

/// A two-dimensional view of the first mip level of `image`, `layer_count` layers deep.
#[derive(Clone, Copy, Debug, PartialEq, Eq, Structural)]
pub struct ImageViewCreateInfo {
    pub image: u64,
    pub format: i32,
    pub aspect_mask: u32,
    pub layer_count: u32,
}

/// How a render pass treats one attachment of one sample per pixel.
#[derive(Clone, Copy, Debug, PartialEq, Eq, Structural)]
pub struct AttachmentDescription {
    pub format: i32,
    pub load_op: i32,
    pub store_op: i32,
    pub stencil_load_op: i32,
    pub stencil_store_op: i32,
    pub initial_layout: i32,
    pub final_layout: i32,
}

/// What a subpass waits for before it starts.
#[derive(Clone, Copy, Debug, PartialEq, Eq, Structural)]
pub struct SubpassDependency {
    pub src_subpass: u32,
    pub dst_subpass: u32,
    pub src_stage_mask: u32,
    pub src_access_mask: u32,
    pub dst_stage_mask: u32,
    pub dst_access_mask: u32,
}

/// A render pass of one graphics subpass that draws into attachment 0 (colour) and
/// attachment 1 (depth).
#[derive(Clone, Copy, Debug, PartialEq, Eq, Structural)]
pub struct RenderPassCreateInfo {
    pub color: AttachmentDescription,
    pub depth: AttachmentDescription,
    /// Layout of the colour attachment during the subpass.
    pub color_layout: i32,
    /// Layout of the depth attachment during the subpass.
    pub depth_layout: i32,
    pub dependency: SubpassDependency,
    /// One bit per view that the subpass renders to.
    pub view_mask: u32,
}

/// A framebuffer over a colour view and a depth view.
#[derive(Clone, Copy, Debug, PartialEq, Eq, Structural)]
pub struct FramebufferCreateInfo {
    pub render_pass: u64,
    pub color_view: u64,
    pub depth_view: u64,
    pub extent: Extent2D,
    pub layers: u32,
}

/// A graphics pipeline of a vertex and a fragment stage, both entered at `main`, with one
/// viewport and scissor that cover `extent`, no blending and one sample per pixel.
#[derive(Clone, Copy, Debug, PartialEq, Eq, Structural)]
pub struct GraphicsPipelineCreateInfo {
    pub vertex_module: u64,
    pub fragment_module: u64,
    pub topology: i32,
    pub extent: Extent2D,
    pub polygon_mode: i32,
    pub cull_mode: u32,
    pub front_face: i32,
    pub color_write_mask: u32,
    pub layout: u64,
    pub render_pass: u64,
    pub subpass: u32,
}

/// The chain of presentable images that is asked of the surface.
#[derive(Clone, Copy, Debug, PartialEq, Eq, Structural)]
pub struct SwapchainCreateInfo {
    pub min_image_count: u32,
    pub extent: Extent2D,
    pub format: i32,
    pub usage: u32,
    /// Layers of each image, one per view.
    pub array_layers: u32,
}

/// What a render pass clears its attachments to. The colour and the depth are the bit
/// patterns of 32-bit floats.
#[derive(Clone, Copy, Debug, PartialEq, Eq)]
pub struct ClearValues {
    pub color: [u32; 4],
    pub depth: u32,
    pub stencil: u32,
}

/// One submission of one command buffer to a queue.
#[derive(Clone, Copy, Debug, PartialEq, Eq, Structural)]
pub struct SubmitInfo {
    pub command_buffer: u64,
    /// The semaphore to wait for, if any.
    pub wait_semaphore: Option<u64>,
    /// The pipeline stage that waits for it.
    pub wait_stage: u32,
    /// The semaphore to signal on completion, if any.
    pub signal_semaphore: Option<u64>,
    /// The fence to signal on completion, if any.
    pub fence: Option<u64>,
}

/// One call to the device that needs nothing but plain values.
///
/// A call that creates an object carries, first, the name the library gave it.
#[allow(inconsistent_fields)]
#[derive(Clone, Copy, Debug, PartialEq, Eq)]
pub enum DeviceCall {
    CreateBuffer { buffer: u64, info: BufferCreateInfo },
    /// Back `buffer` with memory of the given kind and bind it.
    AllocateBufferMemory { buffer: u64, memory: MemoryKind },
    /// Give the memory of `buffer` back to the allocator and destroy the buffer.
    FreeBuffer { buffer: u64 },
    CreateImage { image: u64, info: ImageCreateInfo },
    AllocateImageMemory { image: u64, memory: MemoryKind },
    /// Give the memory of `image` back to the allocator and destroy the image.
    FreeImage { image: u64 },
    CreateImageView { view: u64, info: ImageViewCreateInfo },
    DestroyImageView { view: u64 },
    CreateRenderPass { render_pass: u64, info: RenderPassCreateInfo },
    DestroyRenderPass { render_pass: u64 },
    CreateFramebuffer { framebuffer: u64, info: FramebufferCreateInfo },
    DestroyFramebuffer { framebuffer: u64 },
    DestroyShaderModule { module: u64 },
    /// A pipeline layout over one descriptor set layout.
    CreatePipelineLayout { layout: u64, set_layout: u64 },
    DestroyPipelineLayout { layout: u64 },
    CreateGraphicsPipeline { pipeline: u64, info: GraphicsPipelineCreateInfo },
    DestroyPipeline { pipeline: u64 },
    CreateSemaphore { semaphore: u64 },
    DestroySemaphore { semaphore: u64 },
    CreateFence { fence: u64, signaled: bool },
    DestroyFence { fence: u64 },
    CreateSwapchain { swapchain: u64, info: SwapchainCreateInfo },
    /// Name the image that `swapchain` holds at `index`.
    GetSwapchainImage { image: u64, swapchain: u64, index: u32 },
    DestroySwapchain { swapchain: u64 },
    /// One primary command buffer from `pool`.
    AllocateCommandBuffer { command_buffer: u64, pool: u64 },
    FreeCommandBuffer { command_buffer: u64, pool: u64 },
    DestroyCommandPool { pool: u64 },
    /// A layout of one uniform buffer at binding 0, read by the vertex stage.
    CreateDescriptorSetLayout { layout: u64 },
    DestroyDescriptorSetLayout { layout: u64 },
    /// A pool of `max_sets` sets of one uniform buffer each.
    CreateDescriptorPool { pool: u64, max_sets: u32 },
    DestroyDescriptorPool { pool: u64 },
    AllocateDescriptorSet { set: u64, pool: u64, layout: u64 },
    /// Point binding 0 of `set` at the first `range` bytes of `buffer`.
    UpdateDescriptorSet { set: u64, buffer: u64, range: u64 },
    DeviceWaitIdle,
    QueueWaitIdle { queue: u64 },
    /// Block until `fence` is signalled, however long that takes.
    WaitForFence { fence: u64 },
    ResetFence { fence: u64 },
    ResetCommandBuffer { command_buffer: u64 },
    BeginCommandBuffer { command_buffer: u64, one_time_submit: bool },
    EndCommandBuffer { command_buffer: u64 },
    /// Copy the first `size` bytes of `src` to the start of `dst`.
    CmdCopyBuffer { command_buffer: u64, src: u64, dst: u64, size: u64 },
    CmdBeginRenderPass {
        command_buffer: u64,
        render_pass: u64,
        framebuffer: u64,
        extent: Extent2D,
        clear: ClearValues,
    },
    CmdEndRenderPass { command_buffer: u64 },
    CmdBindPipeline { command_buffer: u64, pipeline: u64 },
    /// Bind `set` as set 0 of `layout`.
    CmdBindDescriptorSet { command_buffer: u64, layout: u64, set: u64 },
    CmdBindVertexBuffer { command_buffer: u64, buffer: u64 },
    /// Bind `buffer` as a buffer of 16-bit indices.
    CmdBindIndexBuffer { command_buffer: u64, buffer: u64 },
    /// Push a 4x4 matrix of 32-bit floats, given by their bit patterns, to the vertex and
    /// fragment stages at offset 0.
    CmdPushConstants { command_buffer: u64, layout: u64, matrix: [u32; 16] },
    /// Draw one instance of `index_count` indices from the start of the bound buffers.
    CmdDrawIndexed { command_buffer: u64, index_count: u32 },
    QueueSubmit { queue: u64, submit: SubmitInfo },
}

/// One entry of the record: a plain call, or a call that carries data.
#[derive(Clone, Debug, PartialEq, Eq)]
pub enum Command {
    Call(DeviceCall),
    /// Map `buffer`, copy `bytes` to its start, unmap it.
    WriteBuffer { buffer: u64, bytes: Vec<u8> },
    /// Create a shader module from SPIR-V words.
    CreateShaderModule { module: u64, code: Vec<u32> },
}

/// A command as contracts speak of it.
pub ghost enum CommandView {
    Call(DeviceCall),
    WriteBuffer { buffer: u64, bytes: Seq<u8> },
    CreateShaderModule { module: u64, code: Seq<u32> },
}

impl View for Command {
    type V = CommandView;

    open spec fn view(&self) -> CommandView {
        match *self {
            Command::Call(call) => CommandView::Call(call),
            Command::WriteBuffer { buffer, bytes } => CommandView::WriteBuffer {
                buffer,
                bytes: bytes@,
            },
            Command::CreateShaderModule { module, code } => CommandView::CreateShaderModule {
                module,
                code: code@,
            },
        }
    }
}

/// The sequence of plain calls `calls`, as commands.
pub open spec fn calls(calls: Seq<DeviceCall>) -> Seq<CommandView> {
    Seq::new(calls.len(), |i: int| CommandView::Call(calls[i]))
}

/// The device as the library sees it: a growing record of calls, and a count of the objects
/// named so far.
pub struct Device {
    commands: Vec<Command>,
    issued: u64,
}

impl Device {
    /// The calls recorded and not yet taken, oldest first.
    pub closed spec fn log(&self) -> Seq<CommandView> {
        Seq::new(self.commands@.len(), |i: int| self.commands@[i]@)
    }

    /// How many objects have been named. The next one is named `issued() + 1`.
    pub closed spec fn issued(&self) -> u64 {
        self.issued
    }

    /// How many more objects can be named.
    pub open spec fn headroom(&self) -> int {
        u64::MAX - self.issued()
    }

    /// `self` is `before` with `added` appended to the record and `named` more objects named.
    pub open spec fn extends(&self, before: &Device, added: Seq<CommandView>, named: int) -> bool {
        &&& self.log() == before.log() + added
        &&& self.issued() == before.issued() + named
    }

    /// A device on which nothing has been recorded and nothing named.
    pub fn new() -> (device: Device)
        ensures
            device.log() == Seq::<CommandView>::empty(),
            device.issued() == 0,
    {
        let device = Device { commands: Vec::new(), issued: 0 };
        assert(device.log() =~= Seq::<CommandView>::empty());
        device
    }

    /// How many more objects can be named.
    pub fn names_left(&self) -> (left: u64)
        ensures
            left == self.headroom(),
    {
        u64::MAX - self.issued
    }

    /// The number of objects named so far.
    pub fn count(&self) -> (n: u64)
        ensures
            n == self.issued(),
    {
        self.issued
    }

    /// Names a new object. The name is never zero and was never given before.
    pub fn fresh(&mut self) -> (handle: u64)
        requires
            old(self).headroom() >= 1,
        ensures
            handle == old(self).issued() + 1,
            final(self).extends(old(self), Seq::empty(), 1),
    {
        self.issued = self.issued + 1;
        assert(self.log() =~= old(self).log() + Seq::<CommandView>::empty());
        self.issued
    }

    /// Records one plain call.
    pub fn call(&mut self, call: DeviceCall)
        ensures
            final(self).extends(old(self), seq![CommandView::Call(call)], 0),
    {
        self.commands.push(Command::Call(call));
        assert(self.log() =~= old(self).log() + seq![CommandView::Call(call)]);
    }

    /// Records a write of `data` to the start of `buffer`.
    pub fn write_buffer(&mut self, buffer: u64, data: &[u8])
        ensures
            final(self).extends(
                old(self),
                seq![CommandView::WriteBuffer { buffer, bytes: data@ }],
                0,
            ),
    {
        let bytes = vstd::slice::slice_to_vec(data);
        self.commands.push(Command::WriteBuffer { buffer, bytes });
        assert(self.log() =~= old(self).log() + seq![
            CommandView::WriteBuffer { buffer, bytes: data@ },
        ]);
    }

    /// Names a new shader module and records its creation from `code`.
    pub fn create_shader_module(&mut self, code: Vec<u32>) -> (module: u64)
        requires
            old(self).headroom() >= 1,
        ensures
            module == old(self).issued() + 1,
            final(self).extends(
                old(self),
                seq![CommandView::CreateShaderModule { module, code: code@ }],
                1,
            ),
    {
        self.issued = self.issued + 1;
        let module = self.issued;
        self.commands.push(Command::CreateShaderModule { module, code });
        assert(self.log() =~= old(self).log() + seq![
            CommandView::CreateShaderModule { module, code: code@ },
        ]);
        module
    }

    /// Hands the recorded commands over, oldest first, and starts a new record. Names already
    /// given stay given.
    pub fn take_commands(&mut self) -> (taken: Vec<Command>)
        ensures
            taken@.len() == old(self).log().len(),
            forall|i: int| 0 <= i < taken@.len() ==> (#[trigger] taken@[i])@ == old(self).log()[i],
            final(self).log() == Seq::<CommandView>::empty(),
            final(self).issued() == old(self).issued(),
    {
        let mut taken: Vec<Command> = Vec::new();
        core::mem::swap(&mut taken, &mut self.commands);
        assert(self.log() =~= Seq::<CommandView>::empty());
        taken
    }
}

/// Whether `command` creates, reads, writes, binds or releases the buffer `buffer`.
pub open spec fn touches_buffer(command: CommandView, buffer: u64) -> bool {
    match command {
        CommandView::WriteBuffer { buffer: written, .. } => written == buffer,
        CommandView::CreateShaderModule { .. } => false,
        CommandView::Call(call) => match call {
            DeviceCall::CreateBuffer { buffer: created, .. } => created == buffer,
            DeviceCall::AllocateBufferMemory { buffer: backed, .. } => backed == buffer,
            DeviceCall::FreeBuffer { buffer: freed } => freed == buffer,
            DeviceCall::UpdateDescriptorSet { buffer: bound, .. } => bound == buffer,
            DeviceCall::CmdCopyBuffer { src, dst, .. } => src == buffer || dst == buffer,
            DeviceCall::CmdBindVertexBuffer { buffer: bound, .. } => bound == buffer,
            DeviceCall::CmdBindIndexBuffer { buffer: bound, .. } => bound == buffer,
            _ => false,
        },
    }
}

} // verus!
