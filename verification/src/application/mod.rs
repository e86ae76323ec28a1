//! Application layer: the errors of the use cases, the frame they carry and
//! the interface through which frames leave a session.

pub mod errors;
pub mod frame_sink;
pub mod yuv_frame;

pub use errors::AppError;
pub use frame_sink::FrameSink;
pub use yuv_frame::YuvFrame;
