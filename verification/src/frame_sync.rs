//! The ring of synchronisation slots that bounds how far the CPU may run ahead of the GPU.
//!
//! Each slot holds a fence and two semaphores. A frame takes the slot after the one the
//! previous frame took; with `N` slots the CPU can have at most `N` frames submitted and not
//! yet retired.
use crate::device::{CommandView, Device, DeviceCall};
use crate::error::EngineError;
use vstd::arithmetic::div_mod::{lemma_add_mod_noop_right, lemma_small_mod};
use vstd::prelude::*;

verus! {

/// The synchronisation objects of one slot.
#[derive(Clone, Copy, Debug, PartialEq, Eq, Structural)]
pub struct Frame {
    /// Signalled when the GPU has finished the frame submitted with this slot.
    pub in_flight_fence: u64,
    /// Signalled when the image acquired for the frame can be drawn to.
    pub image_available: u64,
    /// Signalled when drawing is done and the image can be presented.
    pub render_finished: u64,
}

/// The ring of slots, and the cursor that says which slot the current frame has taken.
pub struct FrameSync {
    pub in_flight_fences: Vec<u64>,
    pub image_available_semaphores: Vec<u64>,
    pub render_finished_semaphores: Vec<u64>,
    pub frames_in_flight: usize,
    pub frame_idx: usize,
    pub freed: bool,
}

/// The calls that create `n` semaphores named `first`, `first + 1`, ...
pub open spec fn semaphores_created(first: int, n: nat) -> Seq<CommandView> {
    Seq::new(n, |i: int| CommandView::Call(DeviceCall::CreateSemaphore { semaphore: (first + i) as u64 }))
}

/// The calls that create `n` signalled fences named `first`, `first + 1`, ...
pub open spec fn fences_created(first: int, n: nat) -> Seq<CommandView> {
    Seq::new(
        n,
        |i: int| CommandView::Call(DeviceCall::CreateFence { fence: (first + i) as u64, signaled: true }),
    )
}

/// The calls that destroy the semaphores `handles`, first to last.
pub open spec fn semaphores_destroyed(handles: Seq<u64>) -> Seq<CommandView> {
    Seq::new(
        handles.len(),
        |i: int| CommandView::Call(DeviceCall::DestroySemaphore { semaphore: handles[i] }),
    )
}

/// The calls that destroy the fences `handles`, first to last.
pub open spec fn fences_destroyed(handles: Seq<u64>) -> Seq<CommandView> {
    Seq::new(handles.len(), |i: int| CommandView::Call(DeviceCall::DestroyFence { fence: handles[i] }))
}

/// The names `first`, `first + 1`, ..., `n` of them.
pub open spec fn consecutive(first: int, n: nat) -> Seq<u64> {
    Seq::new(n, |i: int| (first + i) as u64)
}

fn create_semaphores(device: &mut Device, n: usize) -> (made: Vec<u64>)
    requires
        old(device).headroom() >= n,
    ensures
        made@ == consecutive(old(device).issued() + 1, n as nat),
        final(device).extends(
            old(device),
            semaphores_created(old(device).issued() + 1, n as nat),
            n as int,
        ),
{
    let mut made: Vec<u64> = Vec::new();
    let ghost first = old(device).issued() + 1;
    let mut i: usize = 0;
    assert(device.log() =~= old(device).log() + semaphores_created(first, 0));
    while i < n
        invariant
            i <= n,
            old(device).headroom() >= n,
            first == old(device).issued() + 1,
            made@ =~= consecutive(first, i as nat),
            device.extends(old(device), semaphores_created(first, i as nat), i as int),
        decreases n - i,
    {
        let semaphore = device.fresh();
        device.call(DeviceCall::CreateSemaphore { semaphore });
        made.push(semaphore);
        assert(device.log() =~= old(device).log() + semaphores_created(first, (i + 1) as nat));
        i = i + 1;
    }
    made
}

fn create_fences(device: &mut Device, n: usize) -> (made: Vec<u64>)
    requires
        old(device).headroom() >= n,
    ensures
        made@ == consecutive(old(device).issued() + 1, n as nat),
        final(device).extends(
            old(device),
            fences_created(old(device).issued() + 1, n as nat),
            n as int,
        ),
{
    let mut made: Vec<u64> = Vec::new();
    let ghost first = old(device).issued() + 1;
    let mut i: usize = 0;
    assert(device.log() =~= old(device).log() + fences_created(first, 0));
    while i < n
        invariant
            i <= n,
            old(device).headroom() >= n,
            first == old(device).issued() + 1,
            made@ =~= consecutive(first, i as nat),
            device.extends(old(device), fences_created(first, i as nat), i as int),
        decreases n - i,
    {
        let fence = device.fresh();
        device.call(DeviceCall::CreateFence { fence, signaled: true });
        made.push(fence);
        assert(device.log() =~= old(device).log() + fences_created(first, (i + 1) as nat));
        i = i + 1;
    }
    made
}

fn destroy_semaphores(device: &mut Device, handles: &Vec<u64>)
    ensures
        final(device).extends(old(device), semaphores_destroyed(handles@), 0),
{
    let mut i: usize = 0;
    assert(device.log() =~= old(device).log() + semaphores_destroyed(handles@.take(0)));
    while i < handles.len()
        invariant
            i <= handles.len(),
            device.extends(old(device), semaphores_destroyed(handles@.take(i as int)), 0),
        decreases handles.len() - i,
    {
        device.call(DeviceCall::DestroySemaphore { semaphore: handles[i] });
        assert(device.log() =~= old(device).log() + semaphores_destroyed(
            handles@.take(i + 1),
        ));
        i = i + 1;
    }
    assert(handles@.take(handles.len() as int) =~= handles@);
}

fn destroy_fences(device: &mut Device, handles: &Vec<u64>)
    ensures
        final(device).extends(old(device), fences_destroyed(handles@), 0),
{
    let mut i: usize = 0;
    assert(device.log() =~= old(device).log() + fences_destroyed(handles@.take(0)));
    while i < handles.len()
        invariant
            i <= handles.len(),
            device.extends(old(device), fences_destroyed(handles@.take(i as int)), 0),
        decreases handles.len() - i,
    {
        device.call(DeviceCall::DestroyFence { fence: handles[i] });
        assert(device.log() =~= old(device).log() + fences_destroyed(handles@.take(i + 1)));
        i = i + 1;
    }
    assert(handles@.take(handles.len() as int) =~= handles@);
}

impl FrameSync {
    /// The ring has at least one slot, every slot has its three objects, and the cursor points
    /// at a slot.
    pub open spec fn wf(&self) -> bool {
        &&& self.frames_in_flight > 0
        &&& self.in_flight_fences@.len() == self.frames_in_flight
        &&& self.image_available_semaphores@.len() == self.frames_in_flight
        &&& self.render_finished_semaphores@.len() == self.frames_in_flight
        &&& self.frame_idx < self.frames_in_flight
    }

    /// Whether the ring is well formed.
    pub fn check(&self) -> (ok: bool)
        ensures
            ok == self.wf(),
    {
        self.frames_in_flight > 0 && self.in_flight_fences.len() == self.frames_in_flight
            && self.image_available_semaphores.len() == self.frames_in_flight
            && self.render_finished_semaphores.len() == self.frames_in_flight && self.frame_idx
            < self.frames_in_flight
    }

    /// The objects of slot `idx`.
    pub open spec fn slot(&self, idx: int) -> Frame {
        Frame {
            in_flight_fence: self.in_flight_fences@[idx],
            image_available: self.image_available_semaphores@[idx],
            render_finished: self.render_finished_semaphores@[idx],
        }
    }

    /// The calls that create the objects of a ring of `n` slots, named from `first` on: first
    /// the semaphores that announce an image, then those that announce the end of drawing, then
    /// the fences, which start out signalled so that the first wait on each returns at once.
    pub open spec fn creation(first: int, n: nat) -> Seq<CommandView> {
        semaphores_created(first, n) + semaphores_created(first + n, n) + fences_created(
            first + 2 * n,
            n,
        )
    }

    /// Creates a ring of `frames_in_flight` slots with the cursor on slot 0.
    ///
    /// A ring without slots is refused before anything reaches the device.
    pub fn new(device: &mut Device, frames_in_flight: usize) -> (made: Result<
        FrameSync,
        EngineError,
    >)
        requires
            old(device).headroom() >= 3 * frames_in_flight,
        ensures
            frames_in_flight == 0 ==> made is Err && made->Err_0 == EngineError::InvalidArgument
                && *final(device) == *old(device),
            frames_in_flight > 0 ==> made is Ok && ({
                let sync = made->Ok_0;
                let first = old(device).issued() + 1;
                let n = frames_in_flight as nat;
                &&& sync.wf()
                &&& sync.frames_in_flight == frames_in_flight
                &&& sync.frame_idx == 0
                &&& !sync.freed
                &&& sync.image_available_semaphores@ == consecutive(first, n)
                &&& sync.render_finished_semaphores@ == consecutive(first + n, n)
                &&& sync.in_flight_fences@ == consecutive(first + 2 * n, n)
                &&& final(device).extends(old(device), Self::creation(first, n), 3 * frames_in_flight)
            }),
    {
        if frames_in_flight == 0 {
            return Err(EngineError::InvalidArgument);
        }
        let image_available_semaphores = create_semaphores(device, frames_in_flight);
        let render_finished_semaphores = create_semaphores(device, frames_in_flight);
        let in_flight_fences = create_fences(device, frames_in_flight);
        proof {
            let first = old(device).issued() + 1;
            let n = frames_in_flight as nat;
            assert(device.log() =~= old(device).log() + Self::creation(first, n));
        }
        Ok(
            FrameSync {
                in_flight_fences,
                image_available_semaphores,
                render_finished_semaphores,
                frames_in_flight,
                frame_idx: 0,
                freed: false,
            },
        )
    }

    /// The fence of the slot under the cursor.
    pub fn fence(&self) -> (fence: u64)
        requires
            self.wf(),
        ensures
            fence == self.slot(self.frame_idx as int).in_flight_fence,
    {
        self.in_flight_fences[self.frame_idx]
    }

    /// The semaphore of the slot under the cursor that announces an acquired image.
    pub fn image_available(&self) -> (semaphore: u64)
        requires
            self.wf(),
        ensures
            semaphore == self.slot(self.frame_idx as int).image_available,
    {
        self.image_available_semaphores[self.frame_idx]
    }

    /// The semaphore of the slot under the cursor that announces the end of drawing.
    pub fn render_finished(&self) -> (semaphore: u64)
        requires
            self.wf(),
        ensures
            semaphore == self.slot(self.frame_idx as int).render_finished,
    {
        self.render_finished_semaphores[self.frame_idx]
    }

    /// The ring with its cursor moved on by one slot.
    pub open spec fn advanced(self) -> FrameSync {
        FrameSync {
            frame_idx: ((self.frame_idx + 1) % (self.frames_in_flight as int)) as usize,
            ..self
        }
    }

    /// The ring with its cursor moved on `steps` times.
    pub open spec fn advanced_by(self, steps: nat) -> FrameSync
        decreases steps,
    {
        if steps == 0 {
            self
        } else {
            self.advanced_by((steps - 1) as nat).advanced()
        }
    }

    /// Moves the cursor to the next slot, wrapping round after the last, and hands out that
    /// slot's index and objects. Nothing is asked of the device.
    pub fn next_frame(&mut self) -> (next: (usize, Frame))
        requires
            old(self).wf(),
        ensures
            *final(self) == old(self).advanced(),
            final(self).wf(),
            next.0 == final(self).frame_idx,
            next.1 == final(self).slot(next.0 as int),
    {
        self.frame_idx = (self.frame_idx + 1) % self.frames_in_flight;
        let frame = Frame {
            in_flight_fence: self.in_flight_fences[self.frame_idx],
            image_available: self.image_available_semaphores[self.frame_idx],
            render_finished: self.render_finished_semaphores[self.frame_idx],
        };
        (self.frame_idx, frame)
    }

    /// The calls that destroy every object of the ring: the semaphores first, in the order
    /// they were created, then the fences.
    pub open spec fn teardown(&self) -> Seq<CommandView> {
        semaphores_destroyed(self.image_available_semaphores@) + semaphores_destroyed(
            self.render_finished_semaphores@,
        ) + fences_destroyed(self.in_flight_fences@)
    }

    /// Destroys every object of the ring and marks it freed. A ring must not be dropped before
    /// it has been freed, nor freed twice.
    pub fn free(&mut self, device: &mut Device)
        requires
            !old(self).freed,
        ensures
            *final(self) == (FrameSync { freed: true, ..*old(self) }),
            final(device).extends(old(device), old(self).teardown(), 0),
    {
        destroy_semaphores(device, &self.image_available_semaphores);
        destroy_semaphores(device, &self.render_finished_semaphores);
        destroy_fences(device, &self.in_flight_fences);
        self.freed = true;
        proof {
            assert(device.log() =~= old(device).log() + old(self).teardown());
        }
    }
}

/// Moving the cursor keeps the ring well formed and touches nothing but the cursor.
pub proof fn lemma_advanced_by_keeps_ring(sync: FrameSync, steps: nat)
    requires
        sync.wf(),
    ensures
        sync.advanced_by(steps).wf(),
        sync.advanced_by(steps) == (FrameSync {
            frame_idx: sync.advanced_by(steps).frame_idx,
            ..sync
        }),
    decreases steps,
{
    if steps > 0 {
        lemma_advanced_by_keeps_ring(sync, (steps - 1) as nat);
    }
}

/// After `steps` frames the cursor has moved `steps` slots round the ring: from slot 0 it visits
/// 1, 2, ..., N-1, 0, 1, ... and neither skips a slot nor takes one out of turn.
pub proof fn lemma_cursor_is_round_robin(sync: FrameSync, steps: nat)
    requires
        sync.wf(),
    ensures
        sync.advanced_by(steps).frame_idx == (sync.frame_idx + steps) % (
        sync.frames_in_flight as int),
        sync.frame_idx == 0 ==> sync.advanced_by(steps).frame_idx == steps % (
        sync.frames_in_flight as nat),
    decreases steps,
{
    let n = sync.frames_in_flight as int;
    if steps == 0 {
        lemma_small_mod(sync.frame_idx as nat, n as nat);
    } else {
        let before = sync.advanced_by((steps - 1) as nat);
        lemma_cursor_is_round_robin(sync, (steps - 1) as nat);
        lemma_advanced_by_keeps_ring(sync, (steps - 1) as nat);
        assert(before.frames_in_flight == sync.frames_in_flight);
        lemma_add_mod_noop_right(1, sync.frame_idx + steps - 1, n);
        assert((1 + (sync.frame_idx + steps - 1) % n) % n == (1 + (sync.frame_idx + steps - 1)) % n);
        assert(before.frame_idx + 1 == 1 + (sync.frame_idx + steps - 1) % n);
        assert(0 <= (sync.frame_idx + steps) % n < n) by (nonlinear_arith)
            requires
                n > 0,
        ;
    }
}

} // verus!
