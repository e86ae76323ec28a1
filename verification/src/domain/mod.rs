//! Domain values and their rules: the bearer token, the request body and
//! the LiveKit credentials.

pub mod credentials;
pub mod text;
pub mod token;

pub use credentials::LiveKitCredentials;
pub use token::{BearerToken, RequestBody};
