//! Everything that has to be rebuilt when the surface changes.
//!
//! A swapchain is one generation of presentable images, together with the depth buffer and the
//! render pass they share and one pipeline for each loaded material. It is built as a unit
//! and torn down as a unit; no pipeline outlives the render pass it was baked against.
use crate::device::{
    calls, AttachmentDescription, CommandView, Device, DeviceCall, Extent2D,
    FramebufferCreateInfo, ImageCreateInfo, ImageViewCreateInfo, MemoryKind,
    RenderPassCreateInfo, SubpassDependency, SwapchainCreateInfo, ACCESS_COLOR_ATTACHMENT_WRITE,
    ATTACHMENT_LOAD_OP_CLEAR, ATTACHMENT_LOAD_OP_DONT_CARE, ATTACHMENT_STORE_OP_DONT_CARE,
    ATTACHMENT_STORE_OP_STORE, FORMAT_B8G8R8A8_SRGB, FORMAT_D32_SFLOAT, IMAGE_ASPECT_COLOR,
    IMAGE_ASPECT_DEPTH, IMAGE_LAYOUT_COLOR_ATTACHMENT_OPTIMAL,
    IMAGE_LAYOUT_DEPTH_STENCIL_ATTACHMENT_OPTIMAL, IMAGE_LAYOUT_PRESENT_SRC,
    IMAGE_LAYOUT_UNDEFINED, IMAGE_USAGE_COLOR_ATTACHMENT, IMAGE_USAGE_DEPTH_STENCIL_ATTACHMENT,
    NULL_HANDLE, PIPELINE_STAGE_COLOR_ATTACHMENT_OUTPUT, SHARING_MODE_EXCLUSIVE,
    SUBPASS_EXTERNAL,
};
use crate::engine::MaterialId;
use crate::frame_sync::Frame;
use crate::pipeline::{Material, Pipeline};
use crate::registry::{
    distinct, index_of, lemma_index_is, lemma_index_of, lemma_push_keeps_distinct,
    lemma_remove_keeps_distinct,
};
use vstd::prelude::*;

verus! {

/// How many views every presentable image holds, one layer each.
pub const VIEW_COUNT: u32 = 2;

/// One bit for each of the `VIEW_COUNT` views.
pub const VIEW_MASK: u32 = 0b11;

/// The format of every presentable image.
pub const COLOR_FORMAT: i32 = FORMAT_B8G8R8A8_SRGB;

/// The format of the depth buffer.
pub const DEPTH_FORMAT: i32 = FORMAT_D32_SFLOAT;

/// What the surface says of itself when asked.
#[derive(Clone, Copy, Debug, PartialEq, Eq, Structural)]
pub struct SurfaceCapabilities {
    pub extent: Extent2D,
    /// How many images the surface recommends.
    pub recommended_image_count: u32,
    pub min_image_count: u32,
    /// The most images the surface supports; zero if there is no limit.
    pub max_image_count: u32,
}

/// `requested` brought into the range from `min` to `max`, where a `max` of zero is no limit.
pub open spec fn clamped_image_count(requested: u32, min: u32, max: u32) -> u32 {
    if requested < min {
        min
    } else if max != 0 && requested > max {
        max
    } else {
        requested
    }
}

/// One presentable image: its view, the framebuffer that draws into it, and the fence of the
/// frame that last drew into it.
#[derive(Clone, Copy, Debug, PartialEq, Eq, Structural)]
pub struct SwapChainImage {
    pub framebuffer: u64,
    pub image_view: u64,
    /// The fence of the last frame that wrote to this image; null if none has.
    pub in_flight: u64,
    pub freed: bool,
}

impl SwapChainImage {
    /// The calls that create the view `view` of `swapchain_image` and the framebuffer
    /// `framebuffer` over that view and the shared depth view.
    pub open spec fn creation(
        view: u64,
        framebuffer: u64,
        render_pass: u64,
        swapchain_image: u64,
        extent: Extent2D,
        depth_image_view: u64,
    ) -> Seq<CommandView> {
        calls(
            seq![
                DeviceCall::CreateImageView {
                    view,
                    info: ImageViewCreateInfo {
                        image: swapchain_image,
                        format: COLOR_FORMAT,
                        aspect_mask: IMAGE_ASPECT_COLOR,
                        layer_count: VIEW_COUNT,
                    },
                },
                DeviceCall::CreateFramebuffer {
                    framebuffer,
                    info: FramebufferCreateInfo {
                        render_pass,
                        color_view: view,
                        depth_view: depth_image_view,
                        extent,
                        layers: 1,
                    },
                },
            ],
        )
    }

    /// Creates the view and the framebuffer of one swapchain image. No frame has written to
    /// the image yet.
    pub fn new(
        device: &mut Device,
        render_pass: u64,
        swapchain_image: u64,
        extent: Extent2D,
        depth_image_view: u64,
    ) -> (made: SwapChainImage)
        requires
            old(device).headroom() >= 2,
        ensures
            made == (SwapChainImage {
                image_view: (old(device).issued() + 1) as u64,
                framebuffer: (old(device).issued() + 2) as u64,
                in_flight: NULL_HANDLE,
                freed: false,
            }),
            final(device).extends(
                old(device),
                Self::creation(
                    made.image_view,
                    made.framebuffer,
                    render_pass,
                    swapchain_image,
                    extent,
                    depth_image_view,
                ),
                2,
            ),
    {
        let image_view = device.fresh();
        let framebuffer = device.fresh();
        device.call(
            DeviceCall::CreateImageView {
                view: image_view,
                info: ImageViewCreateInfo {
                    image: swapchain_image,
                    format: COLOR_FORMAT,
                    aspect_mask: IMAGE_ASPECT_COLOR,
                    layer_count: VIEW_COUNT,
                },
            },
        );
        device.call(
            DeviceCall::CreateFramebuffer {
                framebuffer,
                info: FramebufferCreateInfo {
                    render_pass,
                    color_view: image_view,
                    depth_view: depth_image_view,
                    extent,
                    layers: 1,
                },
            },
        );
        proof {
            assert(device.log() =~= old(device).log() + Self::creation(
                image_view,
                framebuffer,
                render_pass,
                swapchain_image,
                extent,
                depth_image_view,
            ));
        }
        SwapChainImage { framebuffer, image_view, in_flight: NULL_HANDLE, freed: false }
    }

    /// The calls that destroy the framebuffer, then the view.
    pub open spec fn teardown(&self) -> Seq<CommandView> {
        calls(
            seq![
                DeviceCall::DestroyFramebuffer { framebuffer: self.framebuffer },
                DeviceCall::DestroyImageView { view: self.image_view },
            ],
        )
    }

    /// Destroys the framebuffer and the view and marks the image freed.
    pub fn free(&mut self, device: &mut Device)
        requires
            !old(self).freed,
        ensures
            *final(self) == (SwapChainImage { freed: true, ..*old(self) }),
            final(device).extends(old(device), old(self).teardown(), 0),
    {
        device.call(DeviceCall::DestroyFramebuffer { framebuffer: self.framebuffer });
        device.call(DeviceCall::DestroyImageView { view: self.image_view });
        self.freed = true;
        proof {
            assert(device.log() =~= old(device).log() + old(self).teardown());
        }
    }
}

/// One generation of everything that depends on the surface.
pub struct Swapchain {
    pub swapchain: u64,
    pub render_pass: u64,
    pub extent: Extent2D,
    /// One pipeline per material, in the order the materials were loaded.
    pub pipelines: Vec<(MaterialId, Pipeline)>,
    pub depth_image: u64,
    pub depth_image_view: u64,
    pub images: Vec<SwapChainImage>,
    pub freed: bool,
}

/// The calls that name the `n` images of `swapchain`: image `i` is named `first + i`.
pub open spec fn images_named(swapchain: u64, first: int, n: nat) -> Seq<CommandView> {
    Seq::new(
        n,
        |i: int|
            CommandView::Call(
                DeviceCall::GetSwapchainImage { image: (first + i) as u64, swapchain, index: i as u32 },
            ),
    )
}

/// The image that `new` makes of swapchain image `i`, when the views and framebuffers are
/// named from `first` on.
pub open spec fn image_made(first: int, i: int) -> SwapChainImage {
    SwapChainImage {
        image_view: (first + 2 * i) as u64,
        framebuffer: (first + 2 * i + 1) as u64,
        in_flight: NULL_HANDLE,
        freed: false,
    }
}

/// The calls that create views and framebuffers for the first `n` swapchain images, which are
/// named from `first_image` on; the views and framebuffers are named from `first` on.
pub open spec fn images_created(
    render_pass: u64,
    extent: Extent2D,
    depth_image_view: u64,
    first_image: int,
    first: int,
    n: nat,
) -> Seq<CommandView>
    decreases n,
{
    if n == 0 {
        Seq::empty()
    } else {
        images_created(render_pass, extent, depth_image_view, first_image, first, (n - 1) as nat)
            + SwapChainImage::creation(
            image_made(first, n - 1).image_view,
            image_made(first, n - 1).framebuffer,
            render_pass,
            (first_image + n - 1) as u64,
            extent,
            depth_image_view,
        )
    }
}

/// The pipeline that `new` makes of material `i`, when the layouts and pipelines are named
/// from `first` on.
pub open spec fn pipeline_made(first: int, i: int) -> Pipeline {
    Pipeline {
        pipeline_layout: (first + 2 * i) as u64,
        pipeline: (first + 2 * i + 1) as u64,
        freed: false,
    }
}

/// The calls that create a pipeline for each of the first `n` of `materials`, named from
/// `first` on.
pub open spec fn pipelines_created(
    materials: Seq<(MaterialId, Material)>,
    render_pass: u64,
    descriptor_set_layout: u64,
    extent: Extent2D,
    first: int,
    n: nat,
) -> Seq<CommandView>
    decreases n,
{
    if n == 0 {
        Seq::empty()
    } else {
        pipelines_created(
            materials,
            render_pass,
            descriptor_set_layout,
            extent,
            first,
            (n - 1) as nat,
        ) + Pipeline::creation(
            &materials[n - 1].1,
            pipeline_made(first, n - 1).pipeline_layout,
            pipeline_made(first, n - 1).pipeline,
            render_pass,
            descriptor_set_layout,
            extent,
        )
    }
}

/// The calls that destroy the pipelines of `entries`, first to last.
pub open spec fn pipelines_destroyed(entries: Seq<(MaterialId, Pipeline)>) -> Seq<CommandView>
    decreases entries.len(),
{
    if entries.len() == 0 {
        Seq::empty()
    } else {
        pipelines_destroyed(entries.drop_last()) + entries.last().1.teardown()
    }
}

/// The calls that destroy the views and framebuffers of `images`, first to last.
pub open spec fn images_destroyed(images: Seq<SwapChainImage>) -> Seq<CommandView>
    decreases images.len(),
{
    if images.len() == 0 {
        Seq::empty()
    } else {
        images_destroyed(images.drop_last()) + images.last().teardown()
    }
}

/// The identifiers of `materials`, in order.
pub open spec fn material_ids(materials: Seq<(MaterialId, Material)>) -> Seq<MaterialId> {
    Seq::new(materials.len(), |i: int| materials[i].0)
}

impl Swapchain {
    /// No material has two pipelines, and nothing the swapchain holds has been freed behind
    /// its back.
    pub open spec fn wf(&self) -> bool {
        &&& distinct(self.pipeline_ids())
        &&& forall|i: int| 0 <= i < self.pipelines@.len() ==> !(#[trigger] self.pipelines@[i]).1.freed
        &&& forall|i: int| 0 <= i < self.images@.len() ==> !(#[trigger] self.images@[i]).freed
    }

    /// The materials that have a pipeline, in order.
    pub open spec fn pipeline_ids(&self) -> Seq<MaterialId> {
        Seq::new(self.pipelines@.len(), |i: int| self.pipelines@[i].0)
    }

    /// Whether the material `id` has a pipeline.
    pub open spec fn has_pipeline(&self, id: MaterialId) -> bool {
        index_of(self.pipeline_ids(), id) < self.pipelines@.len()
    }

    /// The number of images to ask for: what the surface recommends, within what it supports.
    pub fn image_count(surface: &SurfaceCapabilities) -> (count: u32)
        ensures
            count == clamped_image_count(
                surface.recommended_image_count,
                surface.min_image_count,
                surface.max_image_count,
            ),
    {
        let requested = surface.recommended_image_count;
        if requested < surface.min_image_count {
            surface.min_image_count
        } else if surface.max_image_count != 0 && requested > surface.max_image_count {
            surface.max_image_count
        } else {
            requested
        }
    }

    /// The parameters of the chain of images asked of `surface`: colour attachments in the
    /// engine's colour format, one layer per view.
    pub open spec fn chain_info(surface: &SurfaceCapabilities) -> SwapchainCreateInfo {
        SwapchainCreateInfo {
            min_image_count: clamped_image_count(
                surface.recommended_image_count,
                surface.min_image_count,
                surface.max_image_count,
            ),
            extent: surface.extent,
            format: COLOR_FORMAT,
            usage: IMAGE_USAGE_COLOR_ATTACHMENT,
            array_layers: VIEW_COUNT,
        }
    }

    /// Asks the device for a chain of images that fits `surface`, and names it. How many
    /// images the chain got is for the device to say; `new` builds the rest around them.
    pub fn request(device: &mut Device, surface: &SurfaceCapabilities) -> (swapchain: u64)
        requires
            old(device).headroom() >= 1,
        ensures
            swapchain == old(device).issued() + 1,
            final(device).extends(
                old(device),
                calls(seq![DeviceCall::CreateSwapchain { swapchain, info: Self::chain_info(surface) }]),
                1,
            ),
    {
        let swapchain = device.fresh();
        let info = SwapchainCreateInfo {
            min_image_count: Self::image_count(surface),
            extent: surface.extent,
            format: COLOR_FORMAT,
            usage: IMAGE_USAGE_COLOR_ATTACHMENT,
            array_layers: VIEW_COUNT,
        };
        device.call(DeviceCall::CreateSwapchain { swapchain, info });
        proof {
            assert(device.log() =~= old(device).log() + calls(
                seq![DeviceCall::CreateSwapchain { swapchain, info: Self::chain_info(surface) }],
            ));
        }
        swapchain
    }

    /// The depth buffer: as large as the surface, used as a depth attachment and nothing else.
    pub open spec fn depth_image_info(extent: Extent2D) -> ImageCreateInfo {
        ImageCreateInfo {
            extent,
            format: DEPTH_FORMAT,
            usage: IMAGE_USAGE_DEPTH_STENCIL_ATTACHMENT,
            initial_layout: IMAGE_LAYOUT_UNDEFINED,
            sharing_mode: SHARING_MODE_EXCLUSIVE,
        }
    }

    /// The view of the depth buffer: its depth aspect, one layer.
    pub open spec fn depth_view_info(depth_image: u64) -> ImageViewCreateInfo {
        ImageViewCreateInfo {
            image: depth_image,
            format: DEPTH_FORMAT,
            aspect_mask: IMAGE_ASPECT_DEPTH,
            layer_count: 1,
        }
    }

    /// The one render pass. The colour attachment is cleared on load and stored, starts in no
    /// particular layout and ends ready to present. The depth attachment is cleared on load
    /// and not kept. Colour output waits for whatever used the image before the pass.
    pub open spec fn render_pass_info() -> RenderPassCreateInfo {
        RenderPassCreateInfo {
            color: AttachmentDescription {
                format: COLOR_FORMAT,
                load_op: ATTACHMENT_LOAD_OP_CLEAR,
                store_op: ATTACHMENT_STORE_OP_STORE,
                stencil_load_op: ATTACHMENT_LOAD_OP_DONT_CARE,
                stencil_store_op: ATTACHMENT_STORE_OP_DONT_CARE,
                initial_layout: IMAGE_LAYOUT_UNDEFINED,
                final_layout: IMAGE_LAYOUT_PRESENT_SRC,
            },
            depth: AttachmentDescription {
                format: DEPTH_FORMAT,
                load_op: ATTACHMENT_LOAD_OP_CLEAR,
                store_op: ATTACHMENT_STORE_OP_DONT_CARE,
                stencil_load_op: ATTACHMENT_LOAD_OP_DONT_CARE,
                stencil_store_op: ATTACHMENT_STORE_OP_DONT_CARE,
                initial_layout: IMAGE_LAYOUT_UNDEFINED,
                final_layout: IMAGE_LAYOUT_DEPTH_STENCIL_ATTACHMENT_OPTIMAL,
            },
            color_layout: IMAGE_LAYOUT_COLOR_ATTACHMENT_OPTIMAL,
            depth_layout: IMAGE_LAYOUT_DEPTH_STENCIL_ATTACHMENT_OPTIMAL,
            dependency: SubpassDependency {
                src_subpass: SUBPASS_EXTERNAL,
                dst_subpass: 0,
                src_stage_mask: PIPELINE_STAGE_COLOR_ATTACHMENT_OUTPUT,
                src_access_mask: 0,
                dst_stage_mask: PIPELINE_STAGE_COLOR_ATTACHMENT_OUTPUT,
                dst_access_mask: ACCESS_COLOR_ATTACHMENT_WRITE,
            },
            view_mask: VIEW_MASK,
        }
    }

    /// The calls that create what all images share: the depth image, its memory and view, and
    /// the render pass.
    pub open spec fn shared_created(
        depth_image: u64,
        depth_image_view: u64,
        render_pass: u64,
        extent: Extent2D,
    ) -> Seq<CommandView> {
        calls(
            seq![
                DeviceCall::CreateImage { image: depth_image, info: Self::depth_image_info(extent) },
                DeviceCall::AllocateImageMemory { image: depth_image, memory: MemoryKind::GpuOnly },
                DeviceCall::CreateImageView {
                    view: depth_image_view,
                    info: Self::depth_view_info(depth_image),
                },
                DeviceCall::CreateRenderPass { render_pass, info: Self::render_pass_info() },
            ],
        )
    }

    /// Whether `self` is the generation that `new` builds around the chain `swapchain` of
    /// `image_count` images, for `materials`, when the first object it names is `first`. No
    /// image has been written to, and every material has its pipeline, in order.
    pub open spec fn built(
        &self,
        swapchain: u64,
        extent: Extent2D,
        image_count: nat,
        materials: Seq<(MaterialId, Material)>,
        first: int,
    ) -> bool {
        &&& self.swapchain == swapchain
        &&& self.extent == extent
        &&& !self.freed
        &&& self.depth_image == first + image_count
        &&& self.depth_image_view == first + image_count + 1
        &&& self.render_pass == first + image_count + 2
        &&& self.images@ == Seq::new(image_count, |i: int| image_made(first + image_count + 3, i))
        &&& self.pipelines@ == Seq::new(
            materials.len(),
            |i: int| (materials[i].0, pipeline_made(first + 3 * image_count + 3, i)),
        )
    }

    /// Every call of `new`, when the first object it names is `first`: the chain's images are
    /// named, then the shared objects are created, then a view and a framebuffer for every
    /// image, then a pipeline for every material.
    pub open spec fn creation(
        swapchain: u64,
        extent: Extent2D,
        image_count: nat,
        descriptor_set_layout: u64,
        materials: Seq<(MaterialId, Material)>,
        first: int,
    ) -> Seq<CommandView> {
        let depth_image = (first + image_count) as u64;
        let depth_image_view = (first + image_count + 1) as u64;
        let render_pass = (first + image_count + 2) as u64;
        images_named(swapchain, first, image_count) + Self::shared_created(
            depth_image,
            depth_image_view,
            render_pass,
            extent,
        ) + images_created(
            render_pass,
            extent,
            depth_image_view,
            first,
            first + image_count + 3,
            image_count,
        ) + pipelines_created(
            materials,
            render_pass,
            descriptor_set_layout,
            extent,
            first + 3 * image_count + 3,
            materials.len(),
        )
    }
}

fn name_images(device: &mut Device, swapchain: u64, image_count: u32) -> (named: Vec<u64>)
    requires
        old(device).headroom() >= image_count,
    ensures
        named@.len() == image_count,
        forall|i: int| 0 <= i < image_count ==> #[trigger] named@[i] == old(device).issued() + 1 + i,
        final(device).extends(
            old(device),
            images_named(swapchain, old(device).issued() + 1, image_count as nat),
            image_count as int,
        ),
{
    let mut named: Vec<u64> = Vec::new();
    let ghost first = old(device).issued() + 1;
    let mut index: u32 = 0;
    assert(device.log() =~= old(device).log() + images_named(swapchain, first, 0));
    while index < image_count
        invariant
            index <= image_count,
            old(device).headroom() >= image_count,
            first == old(device).issued() + 1,
            named@.len() == index,
            forall|i: int| 0 <= i < index ==> #[trigger] named@[i] == first + i,
            device.extends(old(device), images_named(swapchain, first, index as nat), index as int),
        decreases image_count - index,
    {
        let image = device.fresh();
        device.call(DeviceCall::GetSwapchainImage { image, swapchain, index });
        named.push(image);
        assert(device.log() =~= old(device).log() + images_named(
            swapchain,
            first,
            (index + 1) as nat,
        ));
        index = index + 1;
    }
    named
}

fn create_images(
    device: &mut Device,
    render_pass: u64,
    extent: Extent2D,
    depth_image_view: u64,
    swapchain_images: &Vec<u64>,
    Ghost(first_image): Ghost<int>,
) -> (made: Vec<SwapChainImage>)
    requires
        old(device).headroom() >= 2 * swapchain_images@.len(),
        forall|i: int|
            0 <= i < swapchain_images@.len() ==> #[trigger] swapchain_images@[i] == first_image + i,
    ensures
        made@ == Seq::new(
            swapchain_images@.len(),
            |i: int| image_made(old(device).issued() + 1, i),
        ),
        final(device).extends(
            old(device),
            images_created(
                render_pass,
                extent,
                depth_image_view,
                first_image,
                old(device).issued() + 1,
                swapchain_images@.len(),
            ),
            2 * (swapchain_images@.len() as int),
        ),
{
    let mut made: Vec<SwapChainImage> = Vec::new();
    let ghost first = old(device).issued() + 1;
    let n = swapchain_images.len();
    let mut i: usize = 0;
    assert(device.log() =~= old(device).log() + images_created(
        render_pass,
        extent,
        depth_image_view,
        first_image,
        first,
        0,
    ));
    while i < n
        invariant
            i <= n,
            n == swapchain_images@.len(),
            old(device).headroom() >= 2 * n,
            first == old(device).issued() + 1,
            forall|k: int|
                0 <= k < swapchain_images@.len() ==> #[trigger] swapchain_images@[k] == first_image
                    + k,
            made@ =~= Seq::new(i as nat, |k: int| image_made(first, k)),
            device.extends(
                old(device),
                images_created(render_pass, extent, depth_image_view, first_image, first, i as nat),
                2 * i,
            ),
        decreases n - i,
    {
        let image = SwapChainImage::new(
            device,
            render_pass,
            swapchain_images[i],
            extent,
            depth_image_view,
        );
        made.push(image);
        proof {
            assert(image == image_made(first, i as int));
            assert(device.log() =~= old(device).log() + images_created(
                render_pass,
                extent,
                depth_image_view,
                first_image,
                first,
                (i + 1) as nat,
            ));
        }
        i = i + 1;
    }
    made
}

fn create_pipelines(
    device: &mut Device,
    materials: &Vec<(MaterialId, Material)>,
    render_pass: u64,
    descriptor_set_layout: u64,
    extent: Extent2D,
) -> (made: Vec<(MaterialId, Pipeline)>)
    requires
        old(device).headroom() >= 2 * materials@.len(),
    ensures
        made@ == Seq::new(
            materials@.len(),
            |i: int| (materials@[i].0, pipeline_made(old(device).issued() + 1, i)),
        ),
        final(device).extends(
            old(device),
            pipelines_created(
                materials@,
                render_pass,
                descriptor_set_layout,
                extent,
                old(device).issued() + 1,
                materials@.len(),
            ),
            2 * (materials@.len() as int),
        ),
{
    let mut made: Vec<(MaterialId, Pipeline)> = Vec::new();
    let ghost first = old(device).issued() + 1;
    let n = materials.len();
    let mut i: usize = 0;
    assert(device.log() =~= old(device).log() + pipelines_created(
        materials@,
        render_pass,
        descriptor_set_layout,
        extent,
        first,
        0,
    ));
    while i < n
        invariant
            i <= n,
            n == materials@.len(),
            old(device).headroom() >= 2 * n,
            first == old(device).issued() + 1,
            made@ =~= Seq::new(i as nat, |k: int| (materials@[k].0, pipeline_made(first, k))),
            device.extends(
                old(device),
                pipelines_created(
                    materials@,
                    render_pass,
                    descriptor_set_layout,
                    extent,
                    first,
                    i as nat,
                ),
                2 * i,
            ),
        decreases n - i,
    {
        let pipeline = Pipeline::new(
            device,
            &materials[i].1,
            render_pass,
            descriptor_set_layout,
            extent,
        );
        made.push((materials[i].0, pipeline));
        proof {
            assert(pipeline == pipeline_made(first, i as int));
            assert(device.log() =~= old(device).log() + pipelines_created(
                materials@,
                render_pass,
                descriptor_set_layout,
                extent,
                first,
                (i + 1) as nat,
            ));
        }
        i = i + 1;
    }
    made
}

fn destroy_pipelines(device: &mut Device, entries: &Vec<(MaterialId, Pipeline)>)
    requires
        forall|i: int| 0 <= i < entries@.len() ==> !(#[trigger] entries@[i]).1.freed,
    ensures
        final(device).extends(old(device), pipelines_destroyed(entries@), 0),
{
    let mut i: usize = 0;
    assert(device.log() =~= old(device).log() + pipelines_destroyed(entries@.take(0)));
    while i < entries.len()
        invariant
            i <= entries.len(),
            forall|k: int| 0 <= k < entries@.len() ==> !(#[trigger] entries@[k]).1.freed,
            device.extends(old(device), pipelines_destroyed(entries@.take(i as int)), 0),
        decreases entries.len() - i,
    {
        let mut pipeline = entries[i].1;
        pipeline.free(device);
        proof {
            assert(entries@.take(i + 1).drop_last() =~= entries@.take(i as int));
            assert(device.log() =~= old(device).log() + pipelines_destroyed(entries@.take(i + 1)));
        }
        i = i + 1;
    }
    assert(entries@.take(entries.len() as int) =~= entries@);
}

fn destroy_images(device: &mut Device, images: &Vec<SwapChainImage>)
    requires
        forall|i: int| 0 <= i < images@.len() ==> !(#[trigger] images@[i]).freed,
    ensures
        final(device).extends(old(device), images_destroyed(images@), 0),
{
    let mut i: usize = 0;
    assert(device.log() =~= old(device).log() + images_destroyed(images@.take(0)));
    while i < images.len()
        invariant
            i <= images.len(),
            forall|k: int| 0 <= k < images@.len() ==> !(#[trigger] images@[k]).freed,
            device.extends(old(device), images_destroyed(images@.take(i as int)), 0),
        decreases images.len() - i,
    {
        let mut image = images[i];
        image.free(device);
        proof {
            assert(images@.take(i + 1).drop_last() =~= images@.take(i as int));
            assert(device.log() =~= old(device).log() + images_destroyed(images@.take(i + 1)));
        }
        i = i + 1;
    }
    assert(images@.take(images.len() as int) =~= images@);
}

impl Swapchain {
    /// Builds a generation around the chain `swapchain`, which holds `image_count` images:
    /// names the images, creates the depth buffer and the render pass, a view and a framebuffer
    /// for every image, and a pipeline for every material in `materials`.
    ///
    /// The pipelines come from `materials` alone; nothing is carried over from an earlier
    /// generation.
    pub fn new(
        device: &mut Device,
        swapchain: u64,
        extent: Extent2D,
        image_count: u32,
        descriptor_set_layout: u64,
        materials: &Vec<(MaterialId, Material)>,
    ) -> (made: Swapchain)
        requires
            old(device).headroom() >= 3 * image_count + 3 + 2 * materials@.len(),
            distinct(material_ids(materials@)),
        ensures
            made.wf(),
            made.built(
                swapchain,
                extent,
                image_count as nat,
                materials@,
                old(device).issued() + 1,
            ),
            made.pipeline_ids() == material_ids(materials@),
            final(device).extends(
                old(device),
                Self::creation(
                    swapchain,
                    extent,
                    image_count as nat,
                    descriptor_set_layout,
                    materials@,
                    old(device).issued() + 1,
                ),
                3 * image_count + 3 + 2 * materials@.len(),
            ),
    {
        let ghost first = old(device).issued() + 1;
        let swapchain_images = name_images(device, swapchain, image_count);
        let depth_image = device.fresh();
        let depth_image_view = device.fresh();
        let render_pass = device.fresh();
        let ghost named = *device;
        device.call(
            DeviceCall::CreateImage {
                image: depth_image,
                info: ImageCreateInfo {
                    extent,
                    format: DEPTH_FORMAT,
                    usage: IMAGE_USAGE_DEPTH_STENCIL_ATTACHMENT,
                    initial_layout: IMAGE_LAYOUT_UNDEFINED,
                    sharing_mode: SHARING_MODE_EXCLUSIVE,
                },
            },
        );
        device.call(
            DeviceCall::AllocateImageMemory { image: depth_image, memory: MemoryKind::GpuOnly },
        );
        device.call(
            DeviceCall::CreateImageView {
                view: depth_image_view,
                info: ImageViewCreateInfo {
                    image: depth_image,
                    format: DEPTH_FORMAT,
                    aspect_mask: IMAGE_ASPECT_DEPTH,
                    layer_count: 1,
                },
            },
        );
        device.call(
            DeviceCall::CreateRenderPass {
                render_pass,
                info: RenderPassCreateInfo {
                    color: AttachmentDescription {
                        format: COLOR_FORMAT,
                        load_op: ATTACHMENT_LOAD_OP_CLEAR,
                        store_op: ATTACHMENT_STORE_OP_STORE,
                        stencil_load_op: ATTACHMENT_LOAD_OP_DONT_CARE,
                        stencil_store_op: ATTACHMENT_STORE_OP_DONT_CARE,
                        initial_layout: IMAGE_LAYOUT_UNDEFINED,
                        final_layout: IMAGE_LAYOUT_PRESENT_SRC,
                    },
                    depth: AttachmentDescription {
                        format: DEPTH_FORMAT,
                        load_op: ATTACHMENT_LOAD_OP_CLEAR,
                        store_op: ATTACHMENT_STORE_OP_DONT_CARE,
                        stencil_load_op: ATTACHMENT_LOAD_OP_DONT_CARE,
                        stencil_store_op: ATTACHMENT_STORE_OP_DONT_CARE,
                        initial_layout: IMAGE_LAYOUT_UNDEFINED,
                        final_layout: IMAGE_LAYOUT_DEPTH_STENCIL_ATTACHMENT_OPTIMAL,
                    },
                    color_layout: IMAGE_LAYOUT_COLOR_ATTACHMENT_OPTIMAL,
                    depth_layout: IMAGE_LAYOUT_DEPTH_STENCIL_ATTACHMENT_OPTIMAL,
                    dependency: SubpassDependency {
                        src_subpass: SUBPASS_EXTERNAL,
                        dst_subpass: 0,
                        src_stage_mask: PIPELINE_STAGE_COLOR_ATTACHMENT_OUTPUT,
                        src_access_mask: 0,
                        dst_stage_mask: PIPELINE_STAGE_COLOR_ATTACHMENT_OUTPUT,
                        dst_access_mask: ACCESS_COLOR_ATTACHMENT_WRITE,
                    },
                    view_mask: VIEW_MASK,
                },
            },
        );
        let ghost shared = *device;
        proof {
            assert(shared.log() =~= named.log() + Self::shared_created(
                depth_image,
                depth_image_view,
                render_pass,
                extent,
            ));
        }
        let images = create_images(
            device,
            render_pass,
            extent,
            depth_image_view,
            &swapchain_images,
            Ghost(first),
        );
        let pipelines = create_pipelines(
            device,
            materials,
            render_pass,
            descriptor_set_layout,
            extent,
        );
        let made = Swapchain {
            swapchain,
            render_pass,
            extent,
            pipelines,
            depth_image,
            depth_image_view,
            images,
            freed: false,
        };
        proof {
            assert(device.log() =~= old(device).log() + Self::creation(
                swapchain,
                extent,
                image_count as nat,
                descriptor_set_layout,
                materials@,
                first,
            ));
            assert(made.pipeline_ids() =~= material_ids(materials@));
        }
        made
    }

    /// The wait that keeps two frames from drawing into one image at once: none if no frame has
    /// written to the image, else a wait for the fence of the frame that last did.
    pub open spec fn hazard_wait(last_writer: u64) -> Seq<CommandView> {
        if last_writer == NULL_HANDLE {
            Seq::empty()
        } else {
            calls(seq![DeviceCall::WaitForFence { fence: last_writer }])
        }
    }

    /// Takes the image that the surface handed out for `frame`. If an earlier frame wrote to
    /// the image, waits until that frame has retired. From now on `frame` is the image's last
    /// writer.
    pub fn next_image(&mut self, device: &mut Device, image_index: u32, frame: &Frame) -> (image:
        SwapChainImage)
        requires
            image_index < old(self).images@.len(),
        ensures
            image == (SwapChainImage {
                in_flight: frame.in_flight_fence,
                ..old(self).images@[image_index as int]
            }),
            final(self).images@ == old(self).images@.update(image_index as int, image),
            *final(self) == (Swapchain { images: final(self).images, ..*old(self) }),
            old(self).wf() ==> final(self).wf(),
            final(device).extends(
                old(device),
                Self::hazard_wait(old(self).images@[image_index as int].in_flight),
                0,
            ),
    {
        let index = image_index as usize;
        let last_writer = self.images[index].in_flight;
        if last_writer != NULL_HANDLE {
            device.call(DeviceCall::WaitForFence { fence: last_writer });
            assert(device.log() =~= old(device).log() + Self::hazard_wait(last_writer));
        } else {
            assert(device.log() =~= old(device).log() + Self::hazard_wait(last_writer));
        }
        self.images[index].in_flight = frame.in_flight_fence;
        self.images[index]
    }

    /// Compiles `material` for this generation and files the pipeline under `id`.
    pub fn add_pipeline(
        &mut self,
        device: &mut Device,
        descriptor_set_layout: u64,
        id: MaterialId,
        material: &Material,
    )
        requires
            old(self).wf(),
            !old(self).has_pipeline(id),
            old(device).headroom() >= 2,
        ensures
            final(self).wf(),
            final(self).pipelines@ == old(self).pipelines@.push(
                (id, pipeline_made(old(device).issued() + 1, 0)),
            ),
            *final(self) == (Swapchain { pipelines: final(self).pipelines, ..*old(self) }),
            final(device).extends(
                old(device),
                Pipeline::creation(
                    material,
                    (old(device).issued() + 1) as u64,
                    (old(device).issued() + 2) as u64,
                    old(self).render_pass,
                    descriptor_set_layout,
                    old(self).extent,
                ),
                2,
            ),
    {
        let pipeline = Pipeline::new(
            device,
            material,
            self.render_pass,
            descriptor_set_layout,
            self.extent,
        );
        self.pipelines.push((id, pipeline));
        proof {
            assert(self.pipeline_ids() =~= old(self).pipeline_ids().push(id));
            lemma_index_of(old(self).pipeline_ids(), id);
            lemma_push_keeps_distinct(old(self).pipeline_ids(), id);
        }
    }

    /// Destroys the pipeline of the material `id` and forgets it. Nothing happens if the
    /// material has no pipeline.
    pub fn remove_pipeline(&mut self, device: &mut Device, id: MaterialId)
        requires
            old(self).wf(),
        ensures
            final(self).wf(),
            *final(self) == (Swapchain { pipelines: final(self).pipelines, ..*old(self) }),
            old(self).has_pipeline(id) ==> {
                let at = index_of(old(self).pipeline_ids(), id);
                &&& final(self).pipelines@ == old(self).pipelines@.remove(at)
                &&& final(device).extends(old(device), old(self).pipelines@[at].1.teardown(), 0)
            },
            !old(self).has_pipeline(id) ==> final(self).pipelines@ == old(self).pipelines@
                && *final(device) == *old(device),
            !final(self).has_pipeline(id),
    {
        let mut i: usize = 0;
        while i < self.pipelines.len()
            invariant
                i <= self.pipelines@.len(),
                old(self).wf(),
                *self == *old(self),
                *device == *old(device),
                forall|j: int| 0 <= j < i ==> self.pipeline_ids()[j] != id,
            decreases self.pipelines@.len() - i,
        {
            if self.pipelines[i].0.0 == id.0 {
                proof {
                    lemma_index_is(self.pipeline_ids(), id, i as int);
                }
                let entry = self.pipelines.remove(i);
                let mut pipeline = entry.1;
                pipeline.free(device);
                proof {
                    assert(self.pipeline_ids() =~= old(self).pipeline_ids().remove(i as int));
                    lemma_remove_keeps_distinct(old(self).pipeline_ids(), i as int);
                }
                return ;
            }
            i = i + 1;
        }
        proof {
            lemma_index_is(self.pipeline_ids(), id, self.pipelines@.len() as int);
        }
    }

    /// Every call of `free`: wait until the device is idle, so that nothing in flight still
    /// uses what is about to go; then destroy the depth view and image, every pipeline, every
    /// image's framebuffer and view, the render pass, and at last the chain itself.
    pub open spec fn teardown(&self) -> Seq<CommandView> {
        calls(
            seq![
                DeviceCall::DeviceWaitIdle,
                DeviceCall::DestroyImageView { view: self.depth_image_view },
                DeviceCall::FreeImage { image: self.depth_image },
            ],
        ) + pipelines_destroyed(self.pipelines@) + images_destroyed(self.images@) + calls(
            seq![
                DeviceCall::DestroyRenderPass { render_pass: self.render_pass },
                DeviceCall::DestroySwapchain { swapchain: self.swapchain },
            ],
        )
    }

    /// Tears the whole generation down. Afterwards it holds no pipeline and no image.
    pub fn free(&mut self, device: &mut Device)
        requires
            old(self).wf(),
            !old(self).freed,
        ensures
            final(self).freed,
            final(self).pipelines@.len() == 0,
            final(self).images@.len() == 0,
            final(self).wf(),
            *final(self) == (Swapchain {
                pipelines: final(self).pipelines,
                images: final(self).images,
                freed: true,
                ..*old(self)
            }),
            final(device).extends(old(device), old(self).teardown(), 0),
    {
        device.call(DeviceCall::DeviceWaitIdle);
        device.call(DeviceCall::DestroyImageView { view: self.depth_image_view });
        device.call(DeviceCall::FreeImage { image: self.depth_image });
        let ghost idle = *device;
        destroy_pipelines(device, &self.pipelines);
        destroy_images(device, &self.images);
        let ghost emptied = *device;
        device.call(DeviceCall::DestroyRenderPass { render_pass: self.render_pass });
        device.call(DeviceCall::DestroySwapchain { swapchain: self.swapchain });
        self.pipelines = Vec::new();
        self.images = Vec::new();
        self.freed = true;
        proof {
            assert(idle.log() =~= old(device).log() + calls(
                seq![
                    DeviceCall::DeviceWaitIdle,
                    DeviceCall::DestroyImageView { view: old(self).depth_image_view },
                    DeviceCall::FreeImage { image: old(self).depth_image },
                ],
            ));
            assert(device.log() =~= emptied.log() + calls(
                seq![
                    DeviceCall::DestroyRenderPass { render_pass: old(self).render_pass },
                    DeviceCall::DestroySwapchain { swapchain: old(self).swapchain },
                ],
            ));
            assert(device.log() =~= old(device).log() + old(self).teardown());
        }
    }
}

} // verus!
