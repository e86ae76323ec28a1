//! The LiveKit streaming adapter: its handle, and the copy of a decoded
//! I420 buffer into an owned frame.

use vstd::prelude::*;
use vstd::slice::slice_to_vec;

use crate::application::yuv_frame::YuvFrame;

verus! {

/// The LiveKit implementation of the streaming session.
pub struct LiveKitNativeSession;

impl LiveKitNativeSession {
    pub fn new() -> (res: Self)
        ensures
            res == LiveKitNativeSession,
    {
        LiveKitNativeSession
    }
}

impl Default for LiveKitNativeSession {
    fn default() -> (res: Self)
        ensures
            res == LiveKitNativeSession,
    {
        Self::new()
    }
}

/// The owned frame for an I420 buffer of the given size, with its
/// (Y, U, V) strides and plane bytes.
pub fn yuv_frame_from_i420(
    width: u32,
    height: u32,
    strides: (u32, u32, u32),
    data: (&[u8], &[u8], &[u8]),
) -> (res: YuvFrame)
    ensures
        res.width == width,
        res.height == height,
        res.y_stride == strides.0,
        res.u_stride == strides.1,
        res.v_stride == strides.2,
        res.y_plane@ == data.0@,
        res.u_plane@ == data.1@,
        res.v_plane@ == data.2@,
{
    let (y_stride, u_stride, v_stride) = strides;
    let (y_plane, u_plane, v_plane) = data;
    YuvFrame {
        width,
        height,
        y_plane: slice_to_vec(y_plane),
        u_plane: slice_to_vec(u_plane),
        v_plane: slice_to_vec(v_plane),
        y_stride,
        u_stride,
        v_stride,
    }
}

} // verus!
