//! YUV 4:2:0 (I420) video frame handed to a `FrameSink`.
//!
//! Owns plane bytes so the value can cross threads without lifetime
//! gymnastics. Strides are bytes-per-row, which may exceed `width` (Y) or
//! `width/2` (U/V) when the producer adds row padding.

use vstd::prelude::*;

verus! {

/// The number of chroma samples for `n` luma samples: half of them,
/// rounded up.
pub open spec fn chroma_extent_of(n: int) -> int {
    (n + 1) / 2
}

/// Half of `n`, rounded up: the width (or height) of a chroma plane for a
/// luma plane `n` samples wide (or high).
pub fn chroma_extent(n: u32) -> (res: u32)
    ensures
        res == chroma_extent_of(n as int),
        2 * res >= n,
        2 * res <= n + 1,
{
    n / 2 + n % 2
}

pub struct YuvFrame {
    pub width: u32,
    pub height: u32,
    pub y_plane: Vec<u8>,
    pub u_plane: Vec<u8>,
    pub v_plane: Vec<u8>,
    pub y_stride: u32,
    pub u_stride: u32,
    pub v_stride: u32,
}

impl YuvFrame {
    /// The width of the U and V planes: half the frame's width, rounded up.
    pub fn chroma_width(&self) -> (res: u32)
        ensures
            res == chroma_extent_of(self.width as int),
    {
        chroma_extent(self.width)
    }

    /// The height of the U and V planes: half the frame's height, rounded up.
    pub fn chroma_height(&self) -> (res: u32)
        ensures
            res == chroma_extent_of(self.height as int),
    {
        chroma_extent(self.height)
    }
}

} // verus!
