//! Checking at run time that an engine is well formed.
//!
//! Every operation of the engine keeps it well formed, so an engine that is only ever touched
//! through its operations needs no check. The fields are public, though, and a host that
//! builds or patches an engine by hand can come here to find out whether the result is fit
//! for use.
use super::{
    names_grow, names_precede, object_ids, object_names_grow, Engine, FramePhase, MaterialId,
    Object, ObjectId, UNIFORM_SIZE,
};
use crate::allocated_buffer::AllocatedBuffer;
use crate::device::Device;
use crate::pipeline::{Material, Pipeline};
use crate::registry::distinct;
use crate::swapchain::{material_ids, Swapchain};
use vstd::prelude::*;

verus! {

fn materials_distinct(materials: &Vec<(MaterialId, Material)>) -> (ok: bool)
    ensures
        ok == distinct(material_ids(materials@)),
{
    let ghost ids = material_ids(materials@);
    let mut j: usize = 0;
    while j < materials.len()
        invariant
            j <= materials@.len(),
            ids == material_ids(materials@),
            forall|a: int, b: int| 0 <= a < b < j ==> ids[a] != ids[b],
        decreases materials@.len() - j,
    {
        let mut i: usize = 0;
        while i < j
            invariant
                i <= j < materials@.len(),
                ids == material_ids(materials@),
                forall|a: int| 0 <= a < i ==> ids[a] != ids[j as int],
            decreases j - i,
        {
            if materials[i].0.0 == materials[j].0.0 {
                assert(ids[i as int] == ids[j as int]);
                return false;
            }
            i = i + 1;
        }
        j = j + 1;
    }
    true
}

fn pipelines_distinct(swapchain: &Swapchain) -> (ok: bool)
    ensures
        ok == distinct(swapchain.pipeline_ids()),
{
    let ghost ids = swapchain.pipeline_ids();
    let mut j: usize = 0;
    while j < swapchain.pipelines.len()
        invariant
            j <= swapchain.pipelines@.len(),
            ids == swapchain.pipeline_ids(),
            forall|a: int, b: int| 0 <= a < b < j ==> ids[a] != ids[b],
        decreases swapchain.pipelines@.len() - j,
    {
        let mut i: usize = 0;
        while i < j
            invariant
                i <= j < swapchain.pipelines@.len(),
                ids == swapchain.pipeline_ids(),
                forall|a: int| 0 <= a < i ==> ids[a] != ids[j as int],
            decreases j - i,
        {
            if swapchain.pipelines[i].0.0 == swapchain.pipelines[j].0.0 {
                assert(ids[i as int] == ids[j as int]);
                return false;
            }
            i = i + 1;
        }
        j = j + 1;
    }
    true
}

fn objects_distinct(objects: &Vec<(ObjectId, Object)>) -> (ok: bool)
    ensures
        ok == distinct(object_ids(objects@)),
{
    let ghost ids = object_ids(objects@);
    let mut j: usize = 0;
    while j < objects.len()
        invariant
            j <= objects@.len(),
            ids == object_ids(objects@),
            forall|a: int, b: int| 0 <= a < b < j ==> ids[a] != ids[b],
        decreases objects@.len() - j,
    {
        let mut i: usize = 0;
        while i < j
            invariant
                i <= j < objects@.len(),
                ids == object_ids(objects@),
                forall|a: int| 0 <= a < i ==> ids[a] != ids[j as int],
            decreases j - i,
        {
            if objects[i].0.0 == objects[j].0.0 {
                assert(ids[i as int] == ids[j as int]);
                return false;
            }
            i = i + 1;
        }
        j = j + 1;
    }
    true
}

fn buffer_names_grow(buffers: &Vec<AllocatedBuffer>) -> (ok: bool)
    ensures
        ok == names_grow(buffers@),
{
    let mut l: usize = 0;
    while l < buffers.len()
        invariant
            l <= buffers@.len(),
            forall|a: int, b: int|
                0 <= a < b < l ==> (#[trigger] buffers@[a]).handle() < (
                #[trigger] buffers@[b]).handle(),
        decreases buffers@.len() - l,
    {
        let mut k: usize = 0;
        while k < l
            invariant
                k <= l < buffers@.len(),
                forall|a: int|
                    0 <= a < k ==> (#[trigger] buffers@[a]).handle() < buffers@[l as int].handle(),
            decreases l - k,
        {
            if buffers[k].buffer() >= buffers[l].buffer() {
                assert(!(buffers@[k as int].handle() < buffers@[l as int].handle()));
                return false;
            }
            k = k + 1;
        }
        l = l + 1;
    }
    true
}

fn buffer_names_precede(buffers: &Vec<AllocatedBuffer>, objects: &Vec<(ObjectId, Object)>) -> (ok:
    bool)
    ensures
        ok == names_precede(buffers@, objects@),
{
    let mut k: usize = 0;
    while k < buffers.len()
        invariant
            k <= buffers@.len(),
            forall|a: int, i: int|
                0 <= a < k && 0 <= i < objects@.len() ==> (#[trigger] buffers@[a]).handle() < (
                #[trigger] objects@[i]).1.vertices.handle(),
        decreases buffers@.len() - k,
    {
        let mut i: usize = 0;
        while i < objects.len()
            invariant
                k < buffers@.len(),
                i <= objects@.len(),
                forall|b: int|
                    0 <= b < i ==> buffers@[k as int].handle() < (
                    #[trigger] objects@[b]).1.vertices.handle(),
            decreases objects@.len() - i,
        {
            if buffers[k].buffer() >= objects[i].1.vertices.buffer() {
                assert(!(buffers@[k as int].handle() < objects@[i as int].1.vertices.handle()));
                return false;
            }
            i = i + 1;
        }
        k = k + 1;
    }
    true
}

fn object_buffer_names_grow(objects: &Vec<(ObjectId, Object)>) -> (ok: bool)
    ensures
        ok == object_names_grow(objects@),
{
    let mut j: usize = 0;
    while j < objects.len()
        invariant
            j <= objects@.len(),
            forall|a: int|
                0 <= a < j ==> (#[trigger] objects@[a]).1.vertices.handle()
                    < objects@[a].1.indices.handle(),
            forall|a: int, b: int|
                0 <= a < b < j ==> (#[trigger] objects@[a]).1.indices.handle() < (
                #[trigger] objects@[b]).1.vertices.handle(),
        decreases objects@.len() - j,
    {
        if objects[j].1.vertices.buffer() >= objects[j].1.indices.buffer() {
            assert(!(objects@[j as int].1.vertices.handle() < objects@[j as int].1.indices.handle()));
            return false;
        }
        let mut i: usize = 0;
        while i < j
            invariant
                i <= j < objects@.len(),
                forall|a: int|
                    0 <= a < i ==> (#[trigger] objects@[a]).1.indices.handle()
                        < objects@[j as int].1.vertices.handle(),
            decreases j - i,
        {
            if objects[i].1.indices.buffer() >= objects[j].1.vertices.buffer() {
                assert(!(objects@[i as int].1.indices.handle()
                    < objects@[j as int].1.vertices.handle()));
                return false;
            }
            i = i + 1;
        }
        j = j + 1;
    }
    true
}

/// Whether every uniform buffer is as the engine needs it: dynamic, not freed, of the size of
/// the uniforms.
pub open spec fn uniform_buffers_fit(buffers: Seq<AllocatedBuffer>) -> bool {
    forall|i: int|
        0 <= i < buffers.len() ==> {
            &&& (#[trigger] buffers[i]).dynamic()
            &&& !buffers[i].freed()
            &&& buffers[i].info().size == UNIFORM_SIZE
        }
}

fn check_uniform_buffers(buffers: &Vec<AllocatedBuffer>) -> (ok: bool)
    ensures
        ok == uniform_buffers_fit(buffers@),
{
    let mut i: usize = 0;
    while i < buffers.len()
        invariant
            i <= buffers@.len(),
            forall|a: int|
                0 <= a < i ==> {
                    &&& (#[trigger] buffers@[a]).dynamic()
                    &&& !buffers@[a].freed()
                    &&& buffers@[a].info().size == UNIFORM_SIZE
                },
        decreases buffers@.len() - i,
    {
        let buffer = &buffers[i];
        if !buffer.is_dynamic() || buffer.is_freed() || buffer.create_info().size
            != UNIFORM_SIZE as u64 {
            assert(!(buffers@[i as int].dynamic() && !buffers@[i as int].freed()
                && buffers@[i as int].info().size == UNIFORM_SIZE));
            return false;
        }
        i = i + 1;
    }
    true
}

/// Whether every material has an identifier that has been given, and has not been freed.
pub open spec fn materials_fit(materials: Seq<(MaterialId, Material)>, next: u32) -> bool {
    forall|i: int|
        0 <= i < materials.len() ==> {
            &&& (#[trigger] materials[i]).0.0 < next
            &&& !materials[i].1.freed
        }
}

fn check_materials(materials: &Vec<(MaterialId, Material)>, next: u32) -> (ok: bool)
    ensures
        ok == materials_fit(materials@, next),
{
    let mut i: usize = 0;
    while i < materials.len()
        invariant
            i <= materials@.len(),
            forall|a: int|
                0 <= a < i ==> (#[trigger] materials@[a]).0.0 < next && !materials@[a].1.freed,
        decreases materials@.len() - i,
    {
        if materials[i].0.0 >= next || materials[i].1.freed {
            assert(!(materials@[i as int].0.0 < next && !materials@[i as int].1.freed));
            return false;
        }
        i = i + 1;
    }
    true
}

/// Whether every object has an identifier that has been given, and buffers that have not
/// been freed.
pub open spec fn objects_fit(objects: Seq<(ObjectId, Object)>, next: u32) -> bool {
    forall|i: int|
        0 <= i < objects.len() ==> {
            &&& (#[trigger] objects[i]).0.0 < next
            &&& !objects[i].1.vertices.freed()
            &&& !objects[i].1.indices.freed()
        }
}

fn check_objects(objects: &Vec<(ObjectId, Object)>, next: u32) -> (ok: bool)
    ensures
        ok == objects_fit(objects@, next),
{
    let mut i: usize = 0;
    while i < objects.len()
        invariant
            i <= objects@.len(),
            forall|a: int|
                0 <= a < i ==> {
                    &&& (#[trigger] objects@[a]).0.0 < next
                    &&& !objects@[a].1.vertices.freed()
                    &&& !objects@[a].1.indices.freed()
                },
        decreases objects@.len() - i,
    {
        let object = &objects[i].1;
        if objects[i].0.0 >= next || object.vertices.is_freed() || object.indices.is_freed() {
            assert(!(objects@[i as int].0.0 < next && !objects@[i as int].1.vertices.freed()
                && !objects@[i as int].1.indices.freed()));
            return false;
        }
        i = i + 1;
    }
    true
}

fn pipelines_live(pipelines: &Vec<(MaterialId, Pipeline)>) -> (ok: bool)
    ensures
        ok == (forall|i: int| 0 <= i < pipelines@.len() ==> !(#[trigger] pipelines@[i]).1.freed),
{
    let mut i: usize = 0;
    while i < pipelines.len()
        invariant
            i <= pipelines@.len(),
            forall|a: int| 0 <= a < i ==> !(#[trigger] pipelines@[a]).1.freed,
        decreases pipelines@.len() - i,
    {
        if pipelines[i].1.freed {
            assert(pipelines@[i as int].1.freed);
            return false;
        }
        i = i + 1;
    }
    true
}

fn pipelines_match(swapchain: &Swapchain, materials: &Vec<(MaterialId, Material)>) -> (ok: bool)
    ensures
        ok == (swapchain.pipeline_ids() == material_ids(materials@)),
{
    if swapchain.pipelines.len() != materials.len() {
        assert(swapchain.pipeline_ids().len() != material_ids(materials@).len());
        return false;
    }
    let mut i: usize = 0;
    while i < materials.len()
        invariant
            i <= materials@.len(),
            swapchain.pipelines@.len() == materials@.len(),
            forall|a: int| 0 <= a < i ==> swapchain.pipeline_ids()[a] == material_ids(materials@)[a],
        decreases materials@.len() - i,
    {
        if swapchain.pipelines[i].0.0 != materials[i].0.0 {
            assert(swapchain.pipeline_ids()[i as int] != material_ids(materials@)[i as int]);
            return false;
        }
        i = i + 1;
    }
    assert(swapchain.pipeline_ids() =~= material_ids(materials@));
    true
}

fn buffers_known(buffers: &Vec<AllocatedBuffer>, objects: &Vec<(ObjectId, Object)>, issued: u64) -> (ok:
    bool)
    ensures
        ok == ((forall|k: int|
            0 <= k < buffers@.len() ==> (#[trigger] buffers@[k]).handle() <= issued) && (forall|
            i: int,
        | 0 <= i < objects@.len() ==> (#[trigger] objects@[i]).1.indices.handle() <= issued)),
{
    let mut k: usize = 0;
    while k < buffers.len()
        invariant
            k <= buffers@.len(),
            forall|a: int| 0 <= a < k ==> (#[trigger] buffers@[a]).handle() <= issued,
        decreases buffers@.len() - k,
    {
        if buffers[k].buffer() > issued {
            assert(!(buffers@[k as int].handle() <= issued));
            return false;
        }
        k = k + 1;
    }
    let mut i: usize = 0;
    while i < objects.len()
        invariant
            i <= objects@.len(),
            forall|a: int| 0 <= a < buffers@.len() ==> (#[trigger] buffers@[a]).handle() <= issued,
            forall|a: int| 0 <= a < i ==> (#[trigger] objects@[a]).1.indices.handle() <= issued,
        decreases objects@.len() - i,
    {
        if objects[i].1.indices.buffer() > issued {
            assert(!(objects@[i as int].1.indices.handle() <= issued));
            return false;
        }
        i = i + 1;
    }
    true
}

impl Swapchain {
    /// Whether the swapchain is well formed.
    pub fn check(&self) -> (ok: bool)
        ensures
            ok == self.wf(),
    {
        if !pipelines_distinct(self) {
            return false;
        }
        if !pipelines_live(&self.pipelines) {
            return false;
        }
        let mut i: usize = 0;
        while i < self.images.len()
            invariant
                i <= self.images@.len(),
                forall|a: int| 0 <= a < i ==> !(#[trigger] self.images@[a]).freed,
            decreases self.images@.len() - i,
        {
            if self.images[i].freed {
                assert(self.images@[i as int].freed);
                return false;
            }
            i = i + 1;
        }
        true
    }
}

impl Engine {
    /// Whether the engine is well formed and holds no buffer that `device` has not named: all
    /// that the operations of the engine ask of it.
    pub fn check(&self, device: &Device) -> (ok: bool)
        ensures
            ok == (self.wf() && self.known_to(device)),
    {
        let slots = self.frame_sync.frames_in_flight;
        if !self.frame_sync.check() || self.frame_sync.freed {
            return false;
        }
        if self.command_buffers.len() != slots || self.descriptor_sets.len() != slots
            || self.realtime_ubo.len() != slots {
            return false;
        }
        if !check_uniform_buffers(&self.realtime_ubo) {
            return false;
        }
        if !materials_distinct(&self.materials) || !check_materials(
            &self.materials,
            self.next_material_id,
        ) {
            return false;
        }
        if !objects_distinct(&self.objects) || !check_objects(&self.objects, self.next_object_id) {
            return false;
        }
        if !buffer_names_grow(&self.realtime_ubo) || !buffer_names_precede(
            &self.realtime_ubo,
            &self.objects,
        ) || !object_buffer_names_grow(&self.objects) {
            return false;
        }
        match &self.swapchain {
            Some(swapchain) => {
                if !swapchain.check() || swapchain.freed || !pipelines_match(
                    swapchain,
                    &self.materials,
                ) {
                    return false;
                }
                if matches!(self.phase, FramePhase::AwaitingSurface) || matches!(
                    self.phase,
                    FramePhase::AwaitingImages { .. }
                ) {
                    return false;
                }
            },
            None => {
                if matches!(self.phase, FramePhase::AwaitingImage) || matches!(
                    self.phase,
                    FramePhase::AwaitingPresent
                ) {
                    return false;
                }
            },
        }
        if self.uniforms.len() > UNIFORM_SIZE {
            return false;
        }
        buffers_known(&self.realtime_ubo, &self.objects, device.count())
    }
}

} // verus!
