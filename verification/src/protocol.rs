//! PostgreSQL frontend/backend wire protocol: startup handling and framed messages.

pub mod error;
pub mod frame;
pub mod relay;
pub mod startup;
pub mod stream;

pub use error::ProtocolError;
pub use frame::{BackendMessage, FrontendMessage};
pub use relay::RelayOutcome;
pub use startup::{StartupRequest, GSSENC_REQUEST_CODE, SSL_REQUEST_CODE};
pub use stream::{BackendStream, ClientSide, FrontendStream, ServerSide};
