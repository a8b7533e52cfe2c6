//! The plain configuration state of the display surface.
//!
//! The GPU device, queue and surface handles live outside the library,
//! with the rest of the rendering backend; what the simulation side keeps
//! is the surface's size and the texture format the backend chose, as
//! plain values.

use crate::attribute::Attribute;
use vstd::prelude::*;

verus! {

/// The display-surface configuration: current size and chosen texture
/// format, the latter as the backend's numeric format code.
pub struct WgpuRenderTarget {
    pub width: u32,
    pub height: u32,
    pub format: u32,
}

impl WgpuRenderTarget {
    /// A fresh one-by-one surface configuration with the given format.
    pub fn new(format: u32) -> (r: WgpuRenderTarget)
        ensures
            r.width == 1,
            r.height == 1,
            r.format == format,
    {
        WgpuRenderTarget { width: 1, height: 1, format }
    }

    /// Records the new surface size.
    pub fn resize(&mut self, width: u32, height: u32)
        ensures
            final(self).width == width,
            final(self).height == height,
            final(self).format == old(self).format,
    {
        self.width = width;
        self.height = height;
    }

    /// The current surface size.
    pub fn get_size(&self) -> (r: (u32, u32))
        ensures
            r.0 == self.width,
            r.1 == self.height,
    {
        (self.width, self.height)
    }

    /// What a scene needs to set itself up: the chosen texture format.
    pub fn get_init(&self) -> (r: u32)
        ensures
            r == self.format,
    {
        self.format
    }
}

impl Attribute for WgpuRenderTarget {
    type Attribute = u32;

    fn from_attr(attr: u32) -> Self {
        WgpuRenderTarget { width: 1, height: 1, format: attr }
    }

    fn attr(&self) -> &u32 {
        &self.format
    }
}

} // verus!
