//! Rectangles and what the scanout shows.
use vstd::prelude::*;

verus! {

/// A rectangle given by its corner and its extent, in pixels.
#[derive(Clone, Copy, Debug, PartialEq, Eq, Structural)]
pub struct Rect {
    pub x: i32,
    pub y: i32,
    pub width: i32,
    pub height: i32,
}

impl Rect {
    pub open spec fn area(self) -> int {
        self.width * self.height
    }

    /// Whether the rectangle has no area.
    pub fn is_degenerate(&self) -> (degenerate: bool)
        ensures
            degenerate <==> self.area() == 0,
    {
        assert(self.width * self.height == 0 <==> self.width == 0 || self.height == 0)
            by (nonlinear_arith);
        self.width == 0 || self.height == 0
    }
}

/// One frame as the scanout shows it: a surface, the part of it that is
/// read, the part of the screen that it is scaled to, and a rotation.
#[derive(Clone, Copy, Debug, PartialEq, Eq, Structural)]
pub struct Frame {
    /// Handle of the surface that is shown.
    pub surface: usize,
    pub src: Rect,
    pub dst: Rect,
    pub rotation: i32,
}

impl Frame {
    /// The frame puts pixels on the screen: neither rectangle is without
    /// area.
    pub open spec fn visible(self) -> bool {
        self.src.area() != 0 && self.dst.area() != 0
    }

    /// Whether the frame puts pixels on the screen. A frame with a
    /// rectangle without area is a degenerate scale and shows nothing.
    pub fn is_visible(&self) -> (visible: bool)
        ensures
            visible == self.visible(),
    {
        !self.src.is_degenerate() && !self.dst.is_degenerate()
    }
}

/// What the screen shows: the background color while no frame was posted,
/// else the frame that was posted last.
#[derive(Clone, Copy, Debug, PartialEq, Eq, Structural)]
pub enum Scanout {
    Background { color: u32 },
    Frame(Frame),
}

} // verus!
