//! Video frames, the large messages that channels are measured with.

use vstd::prelude::*;

verus! {

/// The geometry of a frame.
#[derive(Clone, Copy, Debug, PartialEq)]
pub struct YuvFrameInfo {
    /// The width of the picture, in pixels.
    pub width: u32,
    /// The height of the picture, in pixels.
    pub height: u32,
    /// The bytes of a row of the luma plane.
    pub y_stride: u32,
    /// The bytes of a row of the first chroma plane.
    pub u_stride: u32,
    /// The bytes of a row of the second chroma plane.
    pub v_stride: u32,
}

/// A frame whose planes are borrowed, from the ring it was received from or from elsewhere.
pub struct YuvFrame<'a> {
    /// The geometry.
    pub info: YuvFrameInfo,
    /// The luma plane.
    pub y_pixels: &'a [u8],
    /// The first chroma plane.
    pub u_pixels: &'a [u8],
    /// The second chroma plane.
    pub v_pixels: &'a [u8],
}

/// A frame that owns its planes.
pub struct OwnedYuvFrame {
    /// The geometry.
    pub info: YuvFrameInfo,
    /// The luma plane.
    pub y_pixels: Vec<u8>,
    /// The first chroma plane.
    pub u_pixels: Vec<u8>,
    /// The second chroma plane.
    pub v_pixels: Vec<u8>,
}

} // verus!
