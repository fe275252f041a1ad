//! The display: a kernel display output opened for direct rendering.
use vstd::prelude::*;

verus! {

/// What the kernel reported when a display output was opened and configured.
#[derive(Clone, Copy, Debug, PartialEq, Eq, Structural)]
pub struct DisplayDevice {
    /// Handle of the native display object; zero when none was made.
    pub handle: usize,
    /// Descriptor of the opened device file; below zero when none is open.
    pub fd: i32,
    pub connector_id: u32,
    pub mode: i32,
    pub width: u32,
    pub height: u32,
    pub crtc_id: u32,
}

impl DisplayDevice {
    /// The output is fully configured: there is a native object and the
    /// device file is open.
    pub open spec fn configured(self) -> bool {
        self.handle != 0 && self.fd >= 0
    }
}

/// A configured display output.
///
/// A display is never partial: its handle is not null and it holds one open
/// device descriptor. Its mode, and with it width and height, is fixed. The
/// value cannot be copied, and `destroy` consumes it, so that it is released
/// once.
pub struct Display {
    device: DisplayDevice,
}

impl View for Display {
    type V = DisplayDevice;

    closed spec fn view(&self) -> DisplayDevice {
        self.device
    }
}

impl Display {
    /// Every display is fully configured.
    #[verifier::type_invariant]
    pub open spec fn inv(&self) -> bool {
        self@.configured()
    }

    /// Takes over a display output from what the kernel reported of it.
    ///
    /// The result is empty exactly when the report does not describe a fully
    /// configured output.
    pub fn new(device: DisplayDevice) -> (display: Option<Display>)
        ensures
            display is Some <==> device.configured(),
            display matches Some(d) ==> d@ == device,
    {
        if device.handle != 0 && device.fd >= 0 {
            Some(Display { device })
        } else {
            None
        }
    }

    /// Gives the display up and names what to release: the native object
    /// and the device descriptor to close.
    pub fn destroy(self) -> (device: DisplayDevice)
        ensures
            device == self@,
            device.configured(),
    {
        proof {
            use_type_invariant(&self);
        }
        self.device
    }

    /// What the kernel reported of this display.
    pub fn device(&self) -> (device: DisplayDevice)
        ensures
            device == self@,
            device.configured(),
    {
        proof {
            use_type_invariant(self);
        }
        self.device
    }

    pub fn handle(&self) -> (handle: usize)
        ensures
            handle == self@.handle,
            handle != 0,
    {
        proof {
            use_type_invariant(self);
        }
        self.device.handle
    }

    pub fn width(&self) -> (width: u32)
        ensures
            width == self@.width,
    {
        self.device.width
    }

    pub fn height(&self) -> (height: u32)
        ensures
            height == self@.height,
    {
        self.device.height
    }
}

} // verus!
