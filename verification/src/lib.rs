//! Verified bookkeeping for a direct-rendering display pipeline.
//!
//! The pipeline runs on a device without a windowing system. A [`Display`] is
//! a kernel display output that was opened for rendering. A [`Context`] binds
//! a GPU rendering context to a display and wraps each physical buffer that
//! the GPU finishes in a [`CSurface`], using a table of at most three
//! (buffer, surface) pairs. A [`Presenter`] puts surfaces on the screen and
//! keeps every surface it was given in exactly one of two queues.
//!
//! Nothing here touches hardware. Every operation takes what the native layer
//! reported as plain values (handles are addresses, zero being the null
//! handle) and decides what the pipeline's state becomes. The caller performs
//! the native work around each call.
//!
//! # Ownership
//!
//! A display is owned by the caller. A context and a presenter borrow the
//! display that they were made against, so the display outlives both.
//!
//! A context owns the surfaces that it registered, from the first lock of
//! their buffer until the context is destroyed. Locking lends a surface to
//! the caller, who lends it on to the presenter by posting it; handing it
//! back to the context ends the loan. What travels is a [`CSurface`], which
//! refers to the surface and can be copied. The context names at most one
//! surface as handed out: the one it locked last. [`Context::destroy`] hands
//! out the surfaces themselves, each as a [`Surface`] that is destroyed
//! once.
//!
//! A presenter keeps the handle of every surface that was posted to it, in
//! exactly one of its two queues, until it is destroyed.
//! [`Presenter::destroy`] lets go of each of them once. A presenter is
//! destroyed before the context whose surfaces it shows, so that no surface
//! is destroyed while it is queued for display.

pub mod attributes;
pub mod context;
pub mod display;
pub mod geometry;
pub mod presenter;
pub mod surface;

pub use attributes::ContextAttributes;
pub use context::{
    BufferObject, BufferSurfacePair, Context, ContextRelease, Negotiated, MAX_BUFFERS,
};
pub use display::{Display, DisplayDevice};
pub use geometry::{Frame, Rect, Scanout};
pub use presenter::{Presenter, PresenterRelease};
pub use surface::{CSurface, Release, Surface, SurfaceInfo};
