//! Decisions of the YUV-to-RGB GPU pipeline, apart from the GPU calls.

use vstd::prelude::*;

verus! {

/// Whether input textures made for a `cached` frame size (width, height)
/// can take a frame of `width` by `height`; the pipeline makes new ones
/// when they cannot, or when it has none yet.
pub fn inputs_fit(cached: Option<(u32, u32)>, width: u32, height: u32) -> (res: bool)
    ensures
        res == (cached == Some((width, height))),
{
    match cached {
        Some((w, h)) => w == width && h == height,
        None => false,
    }
}

} // verus!
