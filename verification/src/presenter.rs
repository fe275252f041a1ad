//! The presenter: it puts surfaces on the screen.
//!
//! The presenter keeps the handle of every surface that was posted to it in
//! one of two queues. The used queue holds the surface that is on the
//! screen. The free queue holds the surfaces that were on the screen
//! before, oldest first; they can be rendered to again. A post moves one
//! surface into the used queue and the one that was there to the back of
//! the free queue, in a single step.
use crate::display::Display;
use crate::geometry::{Frame, Rect, Scanout};
use crate::surface::CSurface;
use vstd::prelude::*;

verus! {

/// The state of a presenter.
pub struct PresenterView {
    /// Handle of the native presenter.
    pub handle: usize,
    /// Handle of the display that the presenter shows on.
    pub display: usize,
    /// The pixel format of the scanout.
    pub format: u32,
    /// The color that fills the screen while no frame was posted.
    pub background_color: u32,
    /// Handles of the surfaces that are free for reuse, oldest first.
    pub free: Seq<usize>,
    /// Handle of the surface that is shown, if one is.
    pub used: Seq<usize>,
    /// The frame that the scanout shows, if one was posted.
    pub shown: Option<Frame>,
}

impl PresenterView {
    /// The surface is in the presenter's hands: one of the queues holds it.
    pub open spec fn holds(self, surface: usize) -> bool {
        self.free.contains(surface) || self.used.contains(surface)
    }

    /// The invariant of a presenter. No surface is twice in a queue, and
    /// none is in both queues. At most one surface is shown, and it is the
    /// surface of the frame on the screen.
    pub open spec fn wf(self) -> bool {
        &&& self.handle != 0
        &&& self.display != 0
        &&& self.free.no_duplicates()
        &&& self.used.no_duplicates()
        &&& self.free.disjoint(self.used)
        &&& !self.free.contains(0)
        &&& !self.used.contains(0)
        &&& self.used.len() <= 1
        &&& self.shown is Some <==> self.used.len() == 1
        &&& self.shown matches Some(frame) ==> self.used[0] == frame.surface
    }

    /// What the screen shows: the frame that was posted last, and the
    /// background color while there is none.
    pub open spec fn scanout(self) -> Scanout {
        match self.shown {
            Some(frame) => Scanout::Frame(frame),
            None => Scanout::Background { color: self.background_color },
        }
    }

    /// The state after a frame was posted.
    ///
    /// Posting the surface that is shown already moves no surface. Any
    /// other surface leaves the free queue, if it was there, and becomes
    /// the shown one; the surface that was shown goes to the back of the
    /// free queue. Either way the screen shows the new frame.
    pub open spec fn post(self, frame: Frame) -> PresenterView {
        if self.used.contains(frame.surface) {
            PresenterView { shown: Some(frame), ..self }
        } else {
            PresenterView {
                free: without(self.free, frame.surface) + self.used,
                used: seq![frame.surface],
                shown: Some(frame),
                ..self
            }
        }
    }

    /// The state after a run of posts, first to last.
    pub open spec fn post_all(self, frames: Seq<Frame>) -> PresenterView
        decreases frames.len(),
    {
        if frames.len() == 0 {
            self
        } else {
            self.post_all(frames.drop_last()).post(frames.last())
        }
    }
}

/// What destroying a presenter releases.
pub struct PresenterRelease {
    /// Handle of the native presenter.
    pub handle: usize,
    /// Handle of every surface that the queues held: the free ones, oldest
    /// first, then the shown one.
    pub surfaces: Vec<usize>,
}

/// The queue less one surface: the surface is taken out where it stands,
/// and the order of the others stays.
pub open spec fn without(queue: Seq<usize>, surface: usize) -> Seq<usize> {
    if queue.contains(surface) {
        queue.remove(queue.index_of(surface))
    } else {
        queue
    }
}

/// A queue without duplicates, less one surface: the surface is gone, every
/// other one stays, and nothing occurs twice.
pub proof fn lemma_without(queue: Seq<usize>, surface: usize)
    requires
        queue.no_duplicates(),
    ensures
        without(queue, surface).no_duplicates(),
        !without(queue, surface).contains(surface),
        forall|x: usize|
            x != surface ==> (without(queue, surface).contains(x) <==> queue.contains(x)),
        queue.contains(surface) ==> without(queue, surface).len() == queue.len() - 1,
        forall|i: int|
            0 <= i < queue.len() && queue[i] == surface ==> without(queue, surface)
                == queue.remove(i),
{
    if queue.contains(surface) {
        let at = queue.index_of(surface);
        let rest = queue.remove(at);
        assert forall|k: int| 0 <= k < rest.len() implies rest[k] == queue[if k < at {
            k
        } else {
            k + 1
        }] by {}
        assert forall|x: usize| x != surface && queue.contains(x) implies rest.contains(x) by {
            let k = choose|k: int| 0 <= k < queue.len() && queue[k] == x;
            assert(rest[if k < at {
                k
            } else {
                k - 1
            }] == x);
        }
    }
}

/// Posting keeps a presenter valid, and the posted surface is the one shown.
pub proof fn lemma_post_keeps_valid(v: PresenterView, frame: Frame)
    requires
        v.wf(),
        frame.surface != 0,
    ensures
        v.post(frame).wf(),
        v.post(frame).used == seq![frame.surface],
        v.post(frame).shown == Some(frame),
{
    if v.used.contains(frame.surface) {
        assert(v.used == seq![frame.surface]);
    } else {
        lemma_without(v.free, frame.surface);
        lemma_joined_queue(without(v.free, frame.surface), v.used);
    }
}

/// A queue joined to another: an element of the joined queue is an element
/// of one of the two, and the other way round.
proof fn lemma_joined_queue(front: Seq<usize>, back: Seq<usize>)
    ensures
        forall|x: usize| (front + back).contains(x) <==> front.contains(x) || back.contains(x),
        front.no_duplicates() && back.no_duplicates() && front.disjoint(back) ==> (front
            + back).no_duplicates(),
{
    let joined = front + back;
    assert forall|x: usize| joined.contains(x) implies front.contains(x) || back.contains(x) by {
        let k = choose|k: int| 0 <= k < joined.len() && joined[k] == x;
        if k < front.len() {
            assert(front[k] == x);
        } else {
            assert(back[k - front.len()] == x);
        }
    }
    assert forall|x: usize| front.contains(x) || back.contains(x) implies joined.contains(x) by {
        if front.contains(x) {
            let k = choose|k: int| 0 <= k < front.len() && front[k] == x;
            assert(joined[k] == x);
        } else {
            let k = choose|k: int| 0 <= k < back.len() && back[k] == x;
            assert(joined[front.len() + k] == x);
        }
    }
}

/// A surface in the presenter's hands is in exactly one of the two queues.
pub proof fn lemma_in_exactly_one_queue(v: PresenterView, surface: usize)
    requires
        v.wf(),
        v.holds(surface),
    ensures
        v.free.contains(surface) != v.used.contains(surface),
{
}

/// A post takes the posted surface into the presenter's hands and lets go
/// of none: the surfaces held afterwards are those held before and the
/// posted one.
pub proof fn lemma_post_keeps_members(v: PresenterView, frame: Frame, surface: usize)
    requires
        v.wf(),
        frame.surface != 0,
    ensures
        v.post(frame).holds(surface) <==> v.holds(surface) || surface == frame.surface,
{
    if !v.used.contains(frame.surface) {
        lemma_without(v.free, frame.surface);
        lemma_joined_queue(without(v.free, frame.surface), v.used);
        assert(v.post(frame).used[0] == frame.surface);
    }
}

/// From its first post on, a surface is in exactly one of the two queues:
/// after any run of posts, each surface that the run posted is held, and in
/// one queue only.
pub proof fn lemma_posted_stays_in_one_queue(v: PresenterView, frames: Seq<Frame>, i: int)
    requires
        v.wf(),
        forall|k: int| 0 <= k < frames.len() ==> (#[trigger] frames[k]).surface != 0,
        0 <= i < frames.len(),
    ensures
        v.post_all(frames).wf(),
        v.post_all(frames).holds(frames[i].surface),
        v.post_all(frames).free.contains(frames[i].surface) != v.post_all(frames).used.contains(
            frames[i].surface,
        ),
{
    lemma_post_all_keeps_valid(v, frames);
    lemma_held_surfaces_were_posted(v, frames, frames[i].surface);
}

/// The presenter holds what it was given and nothing else: after any run
/// of posts it holds a surface exactly when it held the surface before the
/// run or the run posted it.
pub proof fn lemma_held_surfaces_were_posted(v: PresenterView, frames: Seq<Frame>, surface: usize)
    requires
        v.wf(),
        forall|k: int| 0 <= k < frames.len() ==> (#[trigger] frames[k]).surface != 0,
    ensures
        v.post_all(frames).holds(surface) <==> v.holds(surface) || exists|k: int|
            0 <= k < frames.len() && (#[trigger] frames[k]).surface == surface,
    decreases frames.len(),
{
    if frames.len() > 0 {
        let earlier = frames.drop_last();
        lemma_held_surfaces_were_posted(v, earlier, surface);
        lemma_post_all_keeps_valid(v, earlier);
        lemma_post_keeps_members(v.post_all(earlier), frames.last(), surface);
        assert forall|k: int| 0 <= k < earlier.len() implies earlier[k] == frames[k] by {}
    }
}

/// A run of posts keeps a presenter valid.
pub proof fn lemma_post_all_keeps_valid(v: PresenterView, frames: Seq<Frame>)
    requires
        v.wf(),
        forall|k: int| 0 <= k < frames.len() ==> (#[trigger] frames[k]).surface != 0,
    ensures
        v.post_all(frames).wf(),
    decreases frames.len(),
{
    if frames.len() > 0 {
        lemma_post_all_keeps_valid(v, frames.drop_last());
        lemma_post_keeps_valid(v.post_all(frames.drop_last()), frames.last());
    }
}

/// Posting one surface and then another moves the first from the used
/// queue to the free queue and the second into the used queue.
pub proof fn lemma_second_post_frees_first(v: PresenterView, first: Frame, second: Frame)
    requires
        v.wf(),
        first.surface != 0,
        second.surface != 0,
        first.surface != second.surface,
    ensures
        v.post(first).used == seq![first.surface],
        v.post(first).post(second).used == seq![second.surface],
        v.post(first).post(second).free.contains(first.surface),
        v.post(first).post(second).free.last() == first.surface,
        !v.post(first).post(second).free.contains(second.surface),
{
    let shown = v.post(first);
    lemma_post_keeps_valid(v, first);
    lemma_post_keeps_valid(shown, second);
    lemma_post_keeps_members(shown, second, first.surface);
    lemma_in_exactly_one_queue(shown.post(second), first.surface);
    lemma_in_exactly_one_queue(shown.post(second), second.surface);
}

/// In the steady state the queues keep their sizes: when a surface is shown
/// and the posted surface is in the presenter's hands already, the post
/// changes the length of neither queue.
pub proof fn lemma_steady_state_keeps_sizes(v: PresenterView, frame: Frame)
    requires
        v.wf(),
        v.used.len() == 1,
        v.holds(frame.surface),
    ensures
        v.post(frame).free.len() == v.free.len(),
        v.post(frame).used.len() == v.used.len(),
{
    if !v.used.contains(frame.surface) {
        lemma_without(v.free, frame.surface);
    }
}

/// The presenter of a display.
///
/// The value cannot be copied, and `destroy` consumes it, so that it is
/// released once.
pub struct Presenter<'d> {
    handle: usize,
    display: &'d Display,
    format: u32,
    background_color: u32,
    free: Vec<usize>,
    used: Vec<usize>,
    shown: Option<Frame>,
}

impl<'d> View for Presenter<'d> {
    type V = PresenterView;

    closed spec fn view(&self) -> PresenterView {
        PresenterView {
            handle: self.handle,
            display: self.display@.handle,
            format: self.format,
            background_color: self.background_color,
            free: self.free@,
            used: self.used@,
            shown: self.shown,
        }
    }
}

/// The position of `value` in `queue`, if it is there.
fn position(queue: &Vec<usize>, value: usize) -> (at: Option<usize>)
    ensures
        at is Some <==> queue@.contains(value),
        at matches Some(i) ==> i < queue@.len() && queue@[i as int] == value,
{
    let mut i: usize = 0;
    while i < queue.len()
        invariant
            i <= queue@.len(),
            forall|k: int| 0 <= k < i ==> queue@[k] != value,
        decreases queue@.len() - i,
    {
        if queue[i] == value {
            return Some(i);
        }
        i = i + 1;
    }
    None
}

/// A copy of `queue`.
fn copy_of(queue: &Vec<usize>) -> (copy: Vec<usize>)
    ensures
        copy@ == queue@,
{
    let mut copy: Vec<usize> = Vec::new();
    let mut i: usize = 0;
    while i < queue.len()
        invariant
            i <= queue@.len(),
            copy@ == queue@.subrange(0, i as int),
        decreases queue@.len() - i,
    {
        copy.push(queue[i]);
        i = i + 1;
    }
    copy
}

impl<'d> Presenter<'d> {
    /// Every presenter is valid.
    #[verifier::type_invariant]
    pub open spec fn inv(&self) -> bool {
        self@.wf()
    }

    /// Makes the presenter of a display from the handle of the native
    /// presenter, for a pixel format and a background color.
    ///
    /// The result is empty exactly when the handle is null. A new presenter
    /// has both queues empty and shows the background color.
    pub fn new(
        display: &'d Display,
        format: u32,
        background_color: u32,
        handle: usize,
    ) -> (presenter: Option<Presenter<'d>>)
        ensures
            presenter is Some <==> handle != 0,
            presenter matches Some(p) ==> p@ == (PresenterView {
                handle,
                display: display@.handle,
                format,
                background_color,
                free: Seq::empty(),
                used: Seq::empty(),
                shown: None,
            }) && p@.wf(),
    {
        if handle == 0 {
            return None;
        }
        proof {
            use_type_invariant(display);
        }
        let presenter = Presenter {
            handle,
            display,
            format,
            background_color,
            free: Vec::new(),
            used: Vec::new(),
            shown: None,
        };
        Some(presenter)
    }

    /// Submits a surface for display: the source rectangle of the surface
    /// is scaled to the destination rectangle of the screen and rotated.
    ///
    /// The surface becomes the shown one, and the surface that was shown
    /// becomes free. Posting the shown surface again moves nothing. A
    /// rectangle without area is accepted; the frame then shows nothing.
    /// The rotation is handed to the scanout as it is given.
    pub fn post(
        &mut self,
        surface: &CSurface,
        src_x: i32,
        src_y: i32,
        src_width: i32,
        src_height: i32,
        dst_x: i32,
        dst_y: i32,
        dst_width: i32,
        dst_height: i32,
        rotation: i32,
    )
        ensures
            final(self)@ == old(self)@.post(
                Frame {
                    surface: surface@.handle,
                    src: Rect { x: src_x, y: src_y, width: src_width, height: src_height },
                    dst: Rect { x: dst_x, y: dst_y, width: dst_width, height: dst_height },
                    rotation,
                },
            ),
            final(self)@.wf(),
            final(self)@.used == seq![surface@.handle],
            forall|other: usize|
                final(self)@.holds(other) <==> old(self)@.holds(other) || other == surface@.handle,
    {
        let handle: usize = surface.handle();
        let frame = Frame {
            surface: handle,
            src: Rect { x: src_x, y: src_y, width: src_width, height: src_height },
            dst: Rect { x: dst_x, y: dst_y, width: dst_width, height: dst_height },
            rotation,
        };
        proof {
            use_type_invariant(&*self);
            lemma_post_keeps_valid(self@, frame);
            assert forall|other: usize|
                self@.post(frame).holds(other) <==> self@.holds(other) || other == handle by {
                lemma_post_keeps_members(self@, frame, other);
            }
        }
        if self.used.len() == 1 && self.used[0] == handle {
            self.shown = Some(frame);
        } else {
            let ghost before = self@;
            let mut free: Vec<usize> = Vec::new();
            core::mem::swap(&mut free, &mut self.free);
            proof {
                lemma_without(before.free, handle);
            }
            match position(&free, handle) {
                Some(at) => {
                    free.remove(at);
                },
                None => {},
            }
            if self.used.len() == 1 {
                free.push(self.used[0]);
            }
            assert(free@ =~= without(before.free, handle) + before.used);
            let mut used: Vec<usize> = Vec::new();
            used.push(handle);
            *self = Presenter {
                handle: self.handle,
                display: self.display,
                format: self.format,
                background_color: self.background_color,
                free,
                used,
                shown: Some(frame),
            };
        }
    }

    pub fn handle(&self) -> (handle: usize)
        ensures
            handle == self@.handle,
            handle != 0,
    {
        proof {
            use_type_invariant(self);
        }
        self.handle
    }

    /// Whether a queue holds the surface with this handle.
    pub fn holds(&self, surface: usize) -> (held: bool)
        ensures
            held == self@.holds(surface),
    {
        position(&self.free, surface).is_some() || position(&self.used, surface).is_some()
    }

    /// Whether the surface is in the free queue.
    pub fn is_free(&self, surface: &CSurface) -> (free: bool)
        ensures
            free == self@.free.contains(surface@.handle),
    {
        position(&self.free, surface.handle()).is_some()
    }

    /// Whether the surface is in the used queue, that is on the screen.
    pub fn is_used(&self, surface: &CSurface) -> (used: bool)
        ensures
            used == self@.used.contains(surface@.handle),
    {
        position(&self.used, surface.handle()).is_some()
    }

    /// Handles of the free surfaces, oldest first.
    pub fn free_queue(&self) -> (queue: Vec<usize>)
        ensures
            queue@ == self@.free,
    {
        copy_of(&self.free)
    }

    /// Handle of the shown surface, if one is shown.
    pub fn used_queue(&self) -> (queue: Vec<usize>)
        ensures
            queue@ == self@.used,
            queue@.len() <= 1,
    {
        proof {
            use_type_invariant(self);
        }
        copy_of(&self.used)
    }

    /// What the screen shows: the frame that was posted last, and the
    /// background color while no frame was posted.
    pub fn scanout(&self) -> (scanout: Scanout)
        ensures
            scanout == self@.scanout(),
            scanout is Frame <==> self@.used.len() == 1,
            scanout matches Scanout::Frame(frame) ==> self@.used[0] == frame.surface,
    {
        proof {
            use_type_invariant(self);
        }
        match self.shown {
            Some(frame) => Scanout::Frame(frame),
            None => Scanout::Background { color: self.background_color },
        }
    }

    /// The pixel format of the scanout.
    pub fn format(&self) -> (format: u32)
        ensures
            format == self@.format,
    {
        self.format
    }

    /// The color that fills the screen while no frame was posted.
    pub fn background_color(&self) -> (color: u32)
        ensures
            color == self@.background_color,
    {
        self.background_color
    }

    /// Gives the presenter up and drains both queues: the presenter lets go
    /// of every surface that it held, naming each once and no other.
    pub fn destroy(self) -> (release: PresenterRelease)
        ensures
            release.handle == self@.handle,
            release.surfaces@ == self@.free + self@.used,
            release.surfaces@.len() == self@.free.len() + self@.used.len(),
            release.surfaces@.no_duplicates(),
            forall|surface: usize| release.surfaces@.contains(surface) <==> self@.holds(surface),
    {
        proof {
            use_type_invariant(&self);
        }
        let ghost before = self@;
        let mut surfaces: Vec<usize> = self.free;
        let used: Vec<usize> = self.used;
        if used.len() == 1 {
            surfaces.push(used[0]);
        }
        assert(surfaces@ == before.free + before.used);
        proof {
            lemma_joined_queue(before.free, before.used);
        }
        PresenterRelease { handle: self.handle, surfaces }
    }
}

} // verus!
