//! The interface through which decoded frames leave the streaming session.

use vstd::prelude::*;

use crate::application::yuv_frame::YuvFrame;

verus! {

/// Receives every frame a session decodes; the presentation layer
/// implements it.
pub trait FrameSink: Send + Sync + 'static {
    fn submit_frame(&self, frame: YuvFrame);
}

} // verus!
