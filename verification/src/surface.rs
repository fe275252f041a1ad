//! Surfaces: hardware-backed pixel buffers.
use vstd::prelude::*;

verus! {

/// The attributes of one surface.
#[derive(Clone, Copy, Debug, PartialEq, Eq, Structural)]
pub struct SurfaceInfo {
    /// Handle of the surface; it is the surface's identity.
    pub handle: usize,
    /// Handle of the display that the surface belongs to.
    pub display: usize,
    /// Handle of the GPU allocation.
    pub gem_handle: u32,
    /// Size of the allocation in bytes.
    pub size: u64,
    pub width: i32,
    pub height: i32,
    pub stride: i32,
    /// Pixel format identifier.
    pub format: u32,
    /// Descriptor under which the allocation is exported.
    pub prime_fd: i32,
    pub is_mapped: bool,
    /// Address of the CPU view of the allocation; zero when there is none.
    pub map: usize,
}

impl SurfaceInfo {
    /// The record describes a surface: it has an identity and belongs to a
    /// display, and it is marked as mapped exactly when it has a CPU view.
    pub open spec fn wf(self) -> bool {
        &&& self.handle != 0
        &&& self.display != 0
        &&& self.is_mapped <==> self.map != 0
    }

    /// What releasing the surface takes, in order: the CPU view is unmapped
    /// first where there is one, then the GPU allocation is freed.
    pub open spec fn release_plan(self) -> Seq<Release> {
        if self.is_mapped {
            seq![
                Release::Unmap { address: self.map, size: self.size },
                Release::Free { gem_handle: self.gem_handle },
            ]
        } else {
            seq![Release::Free { gem_handle: self.gem_handle }]
        }
    }
}

/// One step of releasing a surface.
#[derive(Clone, Copy, Debug, PartialEq, Eq, Structural)]
pub enum Release {
    /// Unmap the CPU view of `size` bytes at `address`.
    Unmap { address: usize, size: u64 },
    /// Free the GPU allocation.
    Free { gem_handle: u32 },
}

/// A surface as it is passed between context, caller and presenter: one
/// hardware-backed pixel buffer with its geometry and format.
///
/// The value refers to the surface and does not own it, so it can be copied.
/// Surfaces are made by a context; a caller cannot make one. Two values
/// refer to the same surface when their handles are equal. Size, stride and
/// format are fixed.
#[derive(Clone, Copy, Debug, PartialEq, Eq, Structural)]
pub struct CSurface {
    info: SurfaceInfo,
}

impl View for CSurface {
    type V = SurfaceInfo;

    closed spec fn view(&self) -> SurfaceInfo {
        self.info
    }
}

impl CSurface {
    /// Every surface is well formed.
    #[verifier::type_invariant]
    pub open spec fn inv(&self) -> bool {
        self@.wf()
    }

    pub(crate) fn wrap(info: SurfaceInfo) -> (surface: CSurface)
        requires
            info.wf(),
        ensures
            surface@ == info,
    {
        CSurface { info }
    }

    /// The attributes of the surface.
    pub fn info(&self) -> (info: SurfaceInfo)
        ensures
            info == self@,
            info.wf(),
    {
        proof {
            use_type_invariant(self);
        }
        self.info
    }

    pub fn handle(&self) -> (handle: usize)
        ensures
            handle == self@.handle,
            handle != 0,
    {
        proof {
            use_type_invariant(self);
        }
        self.info.handle
    }

    pub fn width(&self) -> (width: i32)
        ensures
            width == self@.width,
    {
        self.info.width
    }

    pub fn height(&self) -> (height: i32)
        ensures
            height == self@.height,
    {
        self.info.height
    }

    /// Whether the surface has a CPU view. It has one exactly when the
    /// address of its mapped memory is not null.
    pub fn is_mapped(&self) -> (mapped: bool)
        ensures
            mapped == self@.is_mapped,
            mapped <==> self@.map != 0,
    {
        proof {
            use_type_invariant(self);
        }
        self.info.is_mapped
    }

    /// The backing memory of a mapped surface, as its address and its size
    /// in bytes; nothing for a surface without a CPU view.
    pub fn mapped_memory(&self) -> (memory: Option<(usize, u64)>)
        ensures
            memory == (if self@.is_mapped {
                Some((self@.map, self@.size))
            } else {
                None
            }),
            memory matches Some(region) ==> region.0 != 0,
    {
        proof {
            use_type_invariant(self);
        }
        if self.info.is_mapped {
            Some((self.info.map, self.info.size))
        } else {
            None
        }
    }
}

/// A surface value is what its attributes say: two values with the same
/// attributes are equal.
pub proof fn lemma_same_attributes_same_surface(a: CSurface, b: CSurface)
    requires
        a@ == b@,
    ensures
        a == b,
{
}

/// A surface in the hands of its owner.
///
/// The context that registered a surface owns it. When the context is
/// destroyed it hands each of its surfaces out as a value of this type. The
/// value cannot be copied, and `destroy` consumes it, so that a surface is
/// released once.
#[derive(Debug)]
pub struct Surface {
    info: SurfaceInfo,
}

impl View for Surface {
    type V = SurfaceInfo;

    closed spec fn view(&self) -> SurfaceInfo {
        self.info
    }
}

impl Surface {
    /// Every surface is well formed.
    #[verifier::type_invariant]
    pub open spec fn inv(&self) -> bool {
        self@.wf()
    }

    pub(crate) fn own(info: SurfaceInfo) -> (surface: Surface)
        requires
            info.wf(),
        ensures
            surface@ == info,
    {
        Surface { info }
    }

    /// Gives the surface up and plans its release: the steps to perform, in
    /// order. A mapped surface is unmapped before its allocation is freed.
    pub fn destroy(self) -> (steps: Vec<Release>)
        ensures
            steps@ == self@.release_plan(),
    {
        let mut steps: Vec<Release> = Vec::new();
        if self.info.is_mapped {
            steps.push(Release::Unmap { address: self.info.map, size: self.info.size });
        }
        steps.push(Release::Free { gem_handle: self.info.gem_handle });
        steps
    }

    /// The surface as it is passed around.
    pub fn as_c_surface(&self) -> (surface: CSurface)
        ensures
            surface@ == self@,
    {
        proof {
            use_type_invariant(self);
        }
        CSurface::wrap(self.info)
    }
}

} // verus!
