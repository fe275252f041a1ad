//! The rendering context and its table of buffers.
//!
//! The GPU recycles a short chain of physical buffers. The context wraps
//! each of them in a surface the first time it is locked and hands the same
//! surface out whenever that buffer comes round again. The table that
//! remembers the pairs has room for three.
use crate::attributes::ContextAttributes;
use crate::display::Display;
use crate::surface::{CSurface, Surface, SurfaceInfo};
use vstd::prelude::*;

verus! {

/// The number of physical buffers that a context can wrap.
pub const MAX_BUFFERS: usize = 3;

/// What the GPU granted when a rendering context was negotiated. A handle
/// is zero where the GPU refused.
#[derive(Clone, Copy, Debug, PartialEq, Eq, Structural)]
pub struct Negotiated {
    /// Handle of the native context.
    pub handle: usize,
    pub gpu_device: usize,
    pub rendering_surface: usize,
    pub rendering_context: usize,
    /// Tag of the pixel format that the rendering surface was made with.
    pub pixel_format: u32,
}

impl Negotiated {
    /// The negotiation succeeded: there is a native context, and the GPU
    /// granted a device, a rendering surface and a rendering context.
    pub open spec fn usable(self) -> bool {
        &&& self.handle != 0
        &&& self.gpu_device != 0
        &&& self.rendering_surface != 0
        &&& self.rendering_context != 0
    }
}

/// What the GPU reports of the buffer that it finished last.
#[derive(Clone, Copy, Debug, PartialEq, Eq, Structural)]
pub struct BufferObject {
    /// Handle of the physical buffer; it is the buffer's identity.
    pub buffer: usize,
    /// Handle under which a surface wraps the buffer, should the buffer be
    /// new to the context.
    pub surface: usize,
    /// Handle of the buffer's GPU allocation.
    pub gem_handle: u32,
    /// Size of the allocation in bytes.
    pub size: u64,
    pub stride: i32,
    /// Descriptor under which the allocation is exported.
    pub prime_fd: i32,
    /// Address of the CPU view of the allocation; zero when there is none.
    pub map: usize,
}

/// A physical buffer and the surface that wraps it.
#[derive(Clone, Copy, Debug, PartialEq, Eq, Structural)]
pub struct BufferSurfacePair {
    pub buffer: usize,
    pub surface: SurfaceInfo,
}

/// What destroying a context releases.
pub struct ContextRelease {
    /// Handle of the native context.
    pub handle: usize,
    pub rendering_context: usize,
    pub rendering_surface: usize,
    pub gpu_device: usize,
    /// Every pair of the table, in the order of registration: the handle of
    /// the physical buffer, and the surface that wrapped it.
    pub pairs: Vec<(usize, Surface)>,
}

/// The state of a context.
pub struct ContextView {
    /// Handle of the native context.
    pub handle: usize,
    /// Handle of the display that the context renders to.
    pub display: usize,
    pub width: i32,
    pub height: i32,
    pub attributes: ContextAttributes,
    pub gpu_device: usize,
    pub rendering_surface: usize,
    pub rendering_context: usize,
    pub pixel_format: u32,
    /// The table: the pairs in the order of registration.
    pub pairs: Seq<BufferSurfacePair>,
    /// Handle of the surface that is handed out, if one is.
    pub locked: Option<usize>,
    /// The rendering context was bound to a thread.
    pub current: bool,
    /// A frame was finished, so that there is a buffer to lock.
    pub frame_ready: bool,
}

impl ContextView {
    /// The pair is fully populated and fits the context: it names a buffer
    /// and a surface, and the surface belongs to the context's display and
    /// has the geometry and format of its rendering surface.
    pub open spec fn populated(self, pair: BufferSurfacePair) -> bool {
        &&& pair.buffer != 0
        &&& pair.surface.wf()
        &&& pair.surface.display == self.display
        &&& pair.surface.width == self.width
        &&& pair.surface.height == self.height
        &&& pair.surface.format == self.pixel_format
    }

    /// The table holds a pair for the buffer.
    pub open spec fn tracks(self, buffer: usize) -> bool {
        exists|i: int| 0 <= i < self.pairs.len() && #[trigger] self.pairs[i].buffer == buffer
    }

    /// The table holds a pair with the surface.
    pub open spec fn wraps(self, surface: usize) -> bool {
        exists|i: int|
            0 <= i < self.pairs.len() && (#[trigger] self.pairs[i]).surface.handle == surface
    }

    /// The slot of the table that holds the buffer's pair.
    pub open spec fn slot_of(self, buffer: usize) -> int {
        choose|i: int| 0 <= i < self.pairs.len() && #[trigger] self.pairs[i].buffer == buffer
    }

    /// The surface that wraps a buffer of the table.
    pub open spec fn surface_of(self, buffer: usize) -> SurfaceInfo
        recommends
            self.tracks(buffer),
    {
        self.pairs[self.slot_of(buffer)].surface
    }

    /// The invariant of a context. The rendering handles are not null. The
    /// table holds at most three pairs, each fully populated, no buffer and
    /// no surface twice. The surface that is handed out is one of the table.
    /// Buffers are only wrapped after a frame was finished, and frames are
    /// only finished once the context was made current.
    pub open spec fn wf(self) -> bool {
        &&& self.handle != 0
        &&& self.display != 0
        &&& self.gpu_device != 0
        &&& self.rendering_surface != 0
        &&& self.rendering_context != 0
        &&& self.pairs.len() <= MAX_BUFFERS
        &&& forall|i: int| 0 <= i < self.pairs.len() ==> self.populated(#[trigger] self.pairs[i])
        &&& forall|i: int, j: int|
            0 <= i < j < self.pairs.len() ==> (#[trigger] self.pairs[i]).buffer != (
            #[trigger] self.pairs[j]).buffer
        &&& forall|i: int, j: int|
            0 <= i < j < self.pairs.len() ==> (#[trigger] self.pairs[i]).surface.handle != (
            #[trigger] self.pairs[j]).surface.handle
        &&& self.locked matches Some(surface) ==> self.wraps(surface)
        &&& self.pairs.len() > 0 ==> self.frame_ready
        &&& self.frame_ready ==> self.current
    }

    /// The surface that is made for a buffer that is new to the table. It
    /// takes display, geometry and format from the context and the rest
    /// from the GPU's report.
    pub open spec fn fresh_surface(self, front: BufferObject) -> SurfaceInfo {
        SurfaceInfo {
            handle: front.surface,
            display: self.display,
            gem_handle: front.gem_handle,
            size: front.size,
            width: self.width,
            height: self.height,
            stride: front.stride,
            format: self.pixel_format,
            prime_fd: front.prime_fd,
            is_mapped: front.map != 0,
            map: front.map,
        }
    }

    /// A pair can be registered for the reported buffer: a frame was
    /// finished, the table has a free slot, the report names a buffer and a
    /// surface, and the surface does not wrap another buffer already.
    pub open spec fn admits(self, front: BufferObject) -> bool {
        &&& self.frame_ready
        &&& self.pairs.len() < MAX_BUFFERS
        &&& front.buffer != 0
        &&& front.surface != 0
        &&& !self.wraps(front.surface)
    }

    /// The surface that locking the reported buffer hands out: the one that
    /// wraps the buffer already, else a fresh one where the table admits it,
    /// else none.
    pub open spec fn lock_result(self, front: BufferObject) -> Option<SurfaceInfo> {
        if self.tracks(front.buffer) {
            Some(self.surface_of(front.buffer))
        } else if self.admits(front) {
            Some(self.fresh_surface(front))
        } else {
            None
        }
    }

    /// The state after locking the reported buffer. A fresh surface is
    /// registered at the end of the table. The surface that was handed out
    /// becomes the locked one. A refused lock changes nothing.
    pub open spec fn lock(self, front: BufferObject) -> ContextView {
        if self.tracks(front.buffer) {
            ContextView { locked: Some(self.surface_of(front.buffer).handle), ..self }
        } else if self.admits(front) {
            ContextView {
                pairs: self.pairs.push(
                    BufferSurfacePair {
                        buffer: front.buffer,
                        surface: self.fresh_surface(front),
                    },
                ),
                locked: Some(front.surface),
                ..self
            }
        } else {
            self
        }
    }

    /// The state after a surface was handed back: it is no longer the
    /// locked one. Handing back any other surface changes nothing.
    pub open spec fn unlock(self, surface: usize) -> ContextView {
        if self.locked == Some(surface) {
            ContextView { locked: None, ..self }
        } else {
            self
        }
    }

    /// The state after the rendering context was bound to a thread.
    pub open spec fn make_current(self) -> ContextView {
        ContextView { current: true, ..self }
    }

    /// The state after a swap: a frame is finished if the context is
    /// current. A context that was never made current has rendered nothing,
    /// and its swap finishes nothing.
    pub open spec fn swap_buffers(self) -> ContextView {
        ContextView { frame_ready: self.frame_ready || self.current, ..self }
    }
}

/// In a valid table a buffer has one slot, so the pair found at any slot
/// with the buffer is the buffer's pair.
pub proof fn lemma_slot_is_unique(v: ContextView, buffer: usize, slot: int)
    requires
        v.wf(),
        0 <= slot < v.pairs.len(),
        v.pairs[slot].buffer == buffer,
    ensures
        v.tracks(buffer),
        v.slot_of(buffer) == slot,
        v.surface_of(buffer) == v.pairs[slot].surface,
{
    let chosen = v.slot_of(buffer);
    assert(v.pairs[chosen].buffer == buffer);
}

/// Locking keeps a context valid; in particular the table never holds more
/// than three pairs.
pub proof fn lemma_lock_keeps_valid(v: ContextView, front: BufferObject)
    requires
        v.wf(),
    ensures
        v.lock(front).wf(),
        v.lock(front).pairs.len() <= MAX_BUFFERS,
        v.lock_result(front) matches Some(surface) ==> surface.wf(),
        v.lock_result(front) matches Some(surface) ==> v.lock(front).wraps(surface.handle),
        v.lock_result(front) matches Some(surface) ==> v.lock(front).locked == Some(
            surface.handle,
        ),
{
    let w = v.lock(front);
    if v.tracks(front.buffer) {
        let slot = v.slot_of(front.buffer);
        assert(v.populated(v.pairs[slot]));
        assert(w.pairs[slot].surface.handle == v.surface_of(front.buffer).handle);
    } else if v.admits(front) {
        let last = v.pairs.len() as int;
        assert(w.pairs[last].buffer == front.buffer);
        assert(w.pairs[last].surface == v.fresh_surface(front));
        assert forall|i: int| 0 <= i < last implies w.pairs[i] == v.pairs[i] by {}
    }
}

/// A lock adds to the table the locked buffer with its surface, where the
/// buffer was new and admitted, and nothing else: every other buffer stays
/// as it was, in or out of the table, and so does every other surface.
pub proof fn lemma_lock_registers_one(v: ContextView, front: BufferObject)
    requires
        v.wf(),
    ensures
        forall|buffer: usize| #[trigger]
            v.lock(front).tracks(buffer) <==> v.tracks(buffer) || (v.lock_result(front) is Some
                && buffer == front.buffer),
        forall|handle: usize| #[trigger]
            v.lock(front).wraps(handle) <==> v.wraps(handle) || (v.lock_result(
                front,
            ) matches Some(handed) && handle == handed.handle),
        forall|buffer: usize|
            v.tracks(buffer) ==> #[trigger] v.lock(front).surface_of(buffer) == v.surface_of(
                buffer,
            ),
        v.lock_result(front) matches Some(handed) ==> v.lock(front).surface_of(front.buffer)
            == handed,
        v.lock_result(front) is None ==> v.lock(front) == v,
{
    let w = v.lock(front);
    lemma_locked_surface_is_found(v, front);
    assert forall|buffer: usize| v.tracks(buffer) implies w.surface_of(buffer) == v.surface_of(
        buffer,
    ) by {
        lemma_surface_is_stable(v, front, buffer);
    }
    if v.tracks(front.buffer) {
        let slot = v.slot_of(front.buffer);
        assert(w.pairs == v.pairs);
        assert(v.pairs[slot].surface.handle == v.surface_of(front.buffer).handle);
    } else if v.admits(front) {
        let last = v.pairs.len() as int;
        assert(w.pairs[last].buffer == front.buffer);
        assert(w.pairs[last].surface.handle == front.surface);
        assert forall|i: int| 0 <= i < last implies w.pairs[i] == v.pairs[i] by {}
        assert forall|buffer: usize|
            w.tracks(buffer) <==> v.tracks(buffer) || buffer == front.buffer by {
            if v.tracks(buffer) {
                assert(w.pairs[v.slot_of(buffer)].buffer == buffer);
            }
            if w.tracks(buffer) {
                let i = w.slot_of(buffer);
                assert(i < last ==> v.pairs[i].buffer == buffer);
            }
        }
        assert forall|handle: usize|
            w.wraps(handle) <==> v.wraps(handle) || handle == front.surface by {
            if v.wraps(handle) {
                let i = choose|i: int|
                    0 <= i < v.pairs.len() && (#[trigger] v.pairs[i]).surface.handle == handle;
                assert(w.pairs[i].surface.handle == handle);
            }
            if w.wraps(handle) {
                let i = choose|i: int|
                    0 <= i < w.pairs.len() && (#[trigger] w.pairs[i]).surface.handle == handle;
                assert(i < last ==> v.pairs[i].surface.handle == handle);
            }
        }
    }
}

/// Binding, swapping and handing a surface back keep a context valid and
/// leave the table as it is.
pub proof fn lemma_steps_keep_valid(v: ContextView, surface: usize)
    requires
        v.wf(),
    ensures
        v.make_current().wf(),
        v.swap_buffers().wf(),
        v.unlock(surface).wf(),
        v.make_current().pairs == v.pairs,
        v.swap_buffers().pairs == v.pairs,
        v.unlock(surface).pairs == v.pairs,
{
    if v.locked is Some {
        let slot = choose|i: int|
            0 <= i < v.pairs.len() && (#[trigger] v.pairs[i]).surface.handle == v.locked.unwrap();
        assert(v.unlock(surface).pairs[slot] == v.pairs[slot]);
    }
}

/// A buffer keeps its surface: whatever is locked afterwards, a buffer of
/// the table stays in the table, at its slot, with the surface it had.
pub proof fn lemma_surface_is_stable(v: ContextView, front: BufferObject, buffer: usize)
    requires
        v.wf(),
        v.tracks(buffer),
    ensures
        v.lock(front).tracks(buffer),
        v.lock(front).slot_of(buffer) == v.slot_of(buffer),
        v.lock(front).surface_of(buffer) == v.surface_of(buffer),
{
    let slot = v.slot_of(buffer);
    lemma_lock_keeps_valid(v, front);
    assert(v.lock(front).pairs[slot] == v.pairs[slot]);
    lemma_slot_is_unique(v.lock(front), buffer, slot);
}

/// Locking the same physical buffer again hands out the same surface, and
/// changes nothing, whether or not the context swapped in between and
/// whatever else the second report says.
pub proof fn lemma_relock_is_same_surface(v: ContextView, first: BufferObject, again: BufferObject)
    requires
        v.wf(),
        first.buffer == again.buffer,
        v.lock_result(first) is Some,
    ensures
        v.lock(first).lock_result(again) == v.lock_result(first),
        v.lock(first).lock(again) == v.lock(first),
        v.lock(first).swap_buffers().lock_result(again) == v.lock_result(first),
        v.lock(first).swap_buffers().lock(again) == v.lock(first),
{
    let w = v.lock(first);
    lemma_lock_keeps_valid(v, first);
    if v.tracks(first.buffer) {
        lemma_surface_is_stable(v, first, first.buffer);
    } else {
        lemma_slot_is_unique(w, first.buffer, v.pairs.len() as int);
    }
    assert(w.swap_buffers() == w);
}

/// Once three distinct physical buffers were locked, the table is full of
/// them: locking a fourth distinct buffer is refused and changes nothing.
pub proof fn lemma_fourth_buffer_is_refused(
    v: ContextView,
    first: BufferObject,
    second: BufferObject,
    third: BufferObject,
    fourth: BufferObject,
)
    requires
        v.wf(),
        first.buffer != second.buffer,
        first.buffer != third.buffer,
        second.buffer != third.buffer,
        fourth.buffer != first.buffer,
        fourth.buffer != second.buffer,
        fourth.buffer != third.buffer,
        v.lock_result(first) is Some,
        v.lock(first).lock_result(second) is Some,
        v.lock(first).lock(second).lock_result(third) is Some,
    ensures
        v.lock(first).lock(second).lock(third).pairs.len() == MAX_BUFFERS,
        v.lock(first).lock(second).lock(third).lock_result(fourth) is None,
        v.lock(first).lock(second).lock(third).lock(fourth)
            == v.lock(first).lock(second).lock(third),
{
    let a = v.lock(first);
    let b = a.lock(second);
    let c = b.lock(third);
    lemma_lock_keeps_valid(v, first);
    lemma_lock_keeps_valid(a, second);
    lemma_lock_keeps_valid(b, third);
    lemma_locked_surface_is_found(v, first);
    lemma_locked_surface_is_found(a, second);
    lemma_locked_surface_is_found(b, third);
    lemma_surface_is_stable(a, second, first.buffer);
    lemma_surface_is_stable(b, third, first.buffer);
    lemma_surface_is_stable(b, third, second.buffer);
    let i = c.slot_of(first.buffer);
    let j = c.slot_of(second.buffer);
    let k = c.slot_of(third.buffer);
    assert(i != j && i != k && j != k);
    assert(c.pairs.len() == 3);
    if c.tracks(fourth.buffer) {
        let l = c.slot_of(fourth.buffer);
        assert(l == i || l == j || l == k);
    }
}

/// After a lock that handed out a surface, the table holds the buffer, and
/// the surface that wraps it is the one that was handed out.
pub proof fn lemma_locked_surface_is_found(v: ContextView, front: BufferObject)
    requires
        v.wf(),
    ensures
        v.lock_result(front) matches Some(handed) ==> v.lock(front).tracks(front.buffer)
            && v.lock(front).surface_of(front.buffer) == handed,
{
    if v.tracks(front.buffer) {
        lemma_surface_is_stable(v, front, front.buffer);
    } else if v.admits(front) {
        lemma_lock_keeps_valid(v, front);
        lemma_slot_is_unique(v.lock(front), front.buffer, v.pairs.len() as int);
    }
}

/// A rendering context bound to a display, with the surfaces that wrap the
/// GPU's buffers.
///
/// The value cannot be copied, and `destroy` consumes it, so that it is
/// released once.
pub struct Context<'d> {
    handle: usize,
    display: &'d Display,
    width: i32,
    height: i32,
    attributes: ContextAttributes,
    gpu_device: usize,
    rendering_surface: usize,
    rendering_context: usize,
    pixel_format: u32,
    buffer_map: Vec<BufferSurfacePair>,
    locked: Option<usize>,
    current: bool,
    frame_ready: bool,
}

impl<'d> View for Context<'d> {
    type V = ContextView;

    closed spec fn view(&self) -> ContextView {
        ContextView {
            handle: self.handle,
            display: self.display@.handle,
            width: self.width,
            height: self.height,
            attributes: self.attributes,
            gpu_device: self.gpu_device,
            rendering_surface: self.rendering_surface,
            rendering_context: self.rendering_context,
            pixel_format: self.pixel_format,
            pairs: self.buffer_map@,
            locked: self.locked,
            current: self.current,
            frame_ready: self.frame_ready,
        }
    }
}

impl<'d> Context<'d> {
    /// Every context is valid.
    #[verifier::type_invariant]
    pub open spec fn inv(&self) -> bool {
        self@.wf()
    }

    /// Makes a context of `width` by `height` pixels against a display, from
    /// what the GPU granted for the requested attributes.
    ///
    /// The result is empty exactly when the negotiation failed, that is when
    /// one of the granted handles is null; there is never a context with a
    /// null rendering context. A new context tracks no buffer, has nothing
    /// locked, is not current and has no finished frame.
    pub fn new(
        display: &'d Display,
        width: i32,
        height: i32,
        attributes: &ContextAttributes,
        negotiated: &Negotiated,
    ) -> (context: Option<Context<'d>>)
        ensures
            context is Some <==> negotiated.usable(),
            context matches Some(c) ==> c@ == (ContextView {
                handle: negotiated.handle,
                display: display@.handle,
                width,
                height,
                attributes: *attributes,
                gpu_device: negotiated.gpu_device,
                rendering_surface: negotiated.rendering_surface,
                rendering_context: negotiated.rendering_context,
                pixel_format: negotiated.pixel_format,
                pairs: Seq::empty(),
                locked: None,
                current: false,
                frame_ready: false,
            }) && c@.wf() && c@.rendering_context != 0,
    {
        if negotiated.handle == 0 || negotiated.gpu_device == 0 || negotiated.rendering_surface
            == 0 || negotiated.rendering_context == 0 {
            return None;
        }
        proof {
            use_type_invariant(display);
        }
        let context = Context {
            handle: negotiated.handle,
            display,
            width,
            height,
            attributes: *attributes,
            gpu_device: negotiated.gpu_device,
            rendering_surface: negotiated.rendering_surface,
            rendering_context: negotiated.rendering_context,
            pixel_format: negotiated.pixel_format,
            buffer_map: Vec::new(),
            locked: None,
            current: false,
            frame_ready: false,
        };
        Some(context)
    }

    /// Binds the rendering context to the calling thread. Binding again
    /// changes nothing. Every later operation on the context is expected to
    /// come from that thread; the caller sees to it.
    pub fn make_current(&mut self)
        ensures
            final(self)@ == old(self)@.make_current(),
            final(self)@.wf(),
    {
        proof {
            use_type_invariant(&*self);
        }
        self.current = true;
    }

    /// Completes the frame that was rendered and advances to the next back
    /// buffer. On a context that was never made current there is no frame
    /// to complete, and nothing changes. Which buffer was finished is the
    /// GPU's choice; it is reported when the buffer is locked.
    pub fn swap_buffers(&mut self)
        ensures
            final(self)@ == old(self)@.swap_buffers(),
            final(self)@.wf(),
    {
        proof {
            use_type_invariant(&*self);
        }
        if self.current {
            self.frame_ready = true;
        }
    }

    /// The slot of the table that holds `buffer`, if one does.
    fn slot_of(&self, buffer: usize) -> (slot: Option<usize>)
        ensures
            slot is Some <==> self@.tracks(buffer),
            slot matches Some(i) ==> i < self@.pairs.len() && i == self@.slot_of(buffer),
    {
        proof {
            use_type_invariant(self);
        }
        let mut i: usize = 0;
        while i < self.buffer_map.len()
            invariant
                i <= self.buffer_map@.len(),
                self@.pairs == self.buffer_map@,
                self@.wf(),
                forall|k: int| 0 <= k < i ==> (#[trigger] self.buffer_map@[k]).buffer != buffer,
            decreases self.buffer_map@.len() - i,
        {
            if self.buffer_map[i].buffer == buffer {
                proof {
                    lemma_slot_is_unique(self@, buffer, i as int);
                }
                return Some(i);
            }
            i = i + 1;
        }
        None
    }

    /// Whether a surface of the table has the handle `surface`.
    fn wraps(&self, surface: usize) -> (wraps: bool)
        ensures
            wraps == self@.wraps(surface),
    {
        let mut i: usize = 0;
        while i < self.buffer_map.len()
            invariant
                i <= self.buffer_map@.len(),
                self@.pairs == self.buffer_map@,
                forall|k: int|
                    0 <= k < i ==> (#[trigger] self.buffer_map@[k]).surface.handle != surface,
            decreases self.buffer_map@.len() - i,
        {
            if self.buffer_map[i].surface.handle == surface {
                return true;
            }
            i = i + 1;
        }
        false
    }

    /// The surface that wraps `buffer`, if the table holds the buffer.
    pub fn find(&self, buffer: usize) -> (surface: Option<CSurface>)
        ensures
            surface is Some <==> self@.tracks(buffer),
            surface matches Some(s) ==> s@ == self@.surface_of(buffer),
    {
        proof {
            use_type_invariant(self);
        }
        match self.slot_of(buffer) {
            Some(i) => {
                Some(CSurface::wrap(self.buffer_map[i].surface))
            },
            None => None,
        }
    }

    /// Locks the buffer that the GPU finished last and hands out the surface
    /// that wraps it.
    ///
    /// A buffer that the table holds keeps its surface, whatever else the
    /// report says. A buffer that is new is wrapped in a fresh surface and
    /// registered, where the table admits it. Otherwise the result is empty
    /// and nothing changes; in particular a fourth buffer is refused once
    /// the table holds three. The surface that is handed out becomes the
    /// locked one.
    pub fn surface_lock(&mut self, front: &BufferObject) -> (surface: Option<CSurface>)
        ensures
            final(self)@ == old(self)@.lock(*front),
            final(self)@.wf(),
            surface is Some <==> old(self)@.tracks(front.buffer) || old(self)@.admits(*front),
            match surface {
                Some(s) => old(self)@.lock_result(*front) == Some(s@),
                None => old(self)@.lock_result(*front) is None,
            },
            surface is None ==> final(self)@ == old(self)@,
            old(self)@.pairs.len() == MAX_BUFFERS && !old(self)@.tracks(front.buffer)
                ==> surface is None,
            surface matches Some(s) ==> s@.width == old(self)@.width,
            surface matches Some(s) ==> s@.height == old(self)@.height,
            surface matches Some(s) ==> final(self)@.locked == Some(s@.handle),
            surface matches Some(s) ==> final(self)@.surface_of(front.buffer) == s@,
            forall|buffer: usize| #[trigger]
                final(self)@.tracks(buffer) <==> old(self)@.tracks(buffer) || (surface is Some
                    && buffer == front.buffer),
            forall|handle: usize| #[trigger]
                final(self)@.wraps(handle) <==> old(self)@.wraps(handle) || (surface matches Some(
                    s,
                ) && handle == s@.handle),
            forall|buffer: usize|
                old(self)@.tracks(buffer) ==> #[trigger] final(self)@.surface_of(buffer)
                    == old(self)@.surface_of(buffer),
    {
        proof {
            use_type_invariant(&*self);
            lemma_lock_keeps_valid(self@, *front);
            lemma_lock_registers_one(self@, *front);
        }
        match self.slot_of(front.buffer) {
            Some(i) => {
                let info = self.buffer_map[i].surface;
                self.locked = Some(info.handle);
                Some(CSurface::wrap(info))
            },
            None => {
                if self.frame_ready && self.buffer_map.len() < MAX_BUFFERS && front.buffer != 0
                    && front.surface != 0 && !self.wraps(front.surface) {
                    let info = SurfaceInfo {
                        handle: front.surface,
                        display: self.display.handle(),
                        gem_handle: front.gem_handle,
                        size: front.size,
                        width: self.width,
                        height: self.height,
                        stride: front.stride,
                        format: self.pixel_format,
                        prime_fd: front.prime_fd,
                        is_mapped: front.map != 0,
                        map: front.map,
                    };
                    self.locked = None;
                    let mut pairs: Vec<BufferSurfacePair> = Vec::new();
                    core::mem::swap(&mut pairs, &mut self.buffer_map);
                    pairs.push(BufferSurfacePair { buffer: front.buffer, surface: info });
                    *self = Context {
                        handle: self.handle,
                        display: self.display,
                        width: self.width,
                        height: self.height,
                        attributes: self.attributes,
                        gpu_device: self.gpu_device,
                        rendering_surface: self.rendering_surface,
                        rendering_context: self.rendering_context,
                        pixel_format: self.pixel_format,
                        buffer_map: pairs,
                        locked: Some(front.surface),
                        current: self.current,
                        frame_ready: self.frame_ready,
                    };
                    Some(CSurface::wrap(info))
                } else {
                    None
                }
            },
        }
    }

    /// Takes back a surface that was locked. The surface is not destroyed:
    /// it stays in the table, ready for the next time its buffer comes
    /// round. Handing back a surface that is not the locked one changes
    /// nothing.
    pub fn surface_unlock(&mut self, surface: &CSurface)
        ensures
            final(self)@ == old(self)@.unlock(surface@.handle),
            final(self)@.wf(),
    {
        proof {
            use_type_invariant(&*self);
        }
        let handle: usize = surface.handle();
        match self.locked {
            Some(locked) => {
                if locked == handle {
                    self.locked = None;
                }
            },
            None => {},
        }
    }

    pub fn handle(&self) -> (handle: usize)
        ensures
            handle == self@.handle,
            handle != 0,
    {
        proof {
            use_type_invariant(self);
        }
        self.handle
    }

    /// The number of pairs in the table; it never exceeds three.
    pub fn buffer_count(&self) -> (count: usize)
        ensures
            count == self@.pairs.len(),
            count <= MAX_BUFFERS,
    {
        proof {
            use_type_invariant(self);
        }
        self.buffer_map.len()
    }

    /// Handle of the surface that is handed out, if one is.
    pub fn locked(&self) -> (locked: Option<usize>)
        ensures
            locked == self@.locked,
    {
        self.locked
    }

    /// Whether the rendering context was bound to a thread.
    pub fn is_current(&self) -> (current: bool)
        ensures
            current == self@.current,
    {
        self.current
    }

    pub fn width(&self) -> (width: i32)
        ensures
            width == self@.width,
    {
        self.width
    }

    pub fn height(&self) -> (height: i32)
        ensures
            height == self@.height,
    {
        self.height
    }

    /// The attributes that the context was negotiated with.
    pub fn attributes(&self) -> (attributes: ContextAttributes)
        ensures
            attributes == self@.attributes,
    {
        self.attributes
    }

    /// Gives the context up and hands out what to release: the rendering
    /// context, the rendering surface, the GPU device and every pair of the
    /// table, whether or not its surface is locked.
    pub fn destroy(self) -> (release: ContextRelease)
        ensures
            release.handle == self@.handle,
            release.rendering_context == self@.rendering_context,
            release.rendering_surface == self@.rendering_surface,
            release.gpu_device == self@.gpu_device,
            release.pairs@.len() == self@.pairs.len(),
            release.pairs@.len() <= MAX_BUFFERS,
            forall|i: int|
                0 <= i < self@.pairs.len() ==> (#[trigger] release.pairs@[i]).0
                    == self@.pairs[i].buffer && release.pairs@[i].1@ == self@.pairs[i].surface,
    {
        proof {
            use_type_invariant(&self);
        }
        let mut pairs: Vec<(usize, Surface)> = Vec::new();
        let mut i: usize = 0;
        while i < self.buffer_map.len()
            invariant
                i <= self.buffer_map@.len(),
                self@.pairs == self.buffer_map@,
                self@.wf(),
                pairs@.len() == i,
                forall|k: int|
                    0 <= k < i ==> (#[trigger] pairs@[k]).0 == self.buffer_map@[k].buffer
                        && pairs@[k].1@ == self.buffer_map@[k].surface,
            decreases self.buffer_map@.len() - i,
        {
            let pair = self.buffer_map[i];
            pairs.push((pair.buffer, Surface::own(pair.surface)));
            i = i + 1;
        }
        ContextRelease {
            handle: self.handle,
            rendering_context: self.rendering_context,
            rendering_surface: self.rendering_surface,
            gpu_device: self.gpu_device,
            pairs,
        }
    }
}

} // verus!
