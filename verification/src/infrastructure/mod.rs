//! Infrastructure layer: the decisions of the LiveKit session and of the
//! token exchange, apart from the network calls that the application makes.

pub mod livekit_native_session;
pub mod token_exchange;
pub mod video_drains;

pub use livekit_native_session::LiveKitNativeSession;
pub use video_drains::ActiveVideoDrains;
