//! Credentials: what names them, which is active, and how they are sealed at rest.
pub mod active;
pub mod envelope;
pub mod key;
pub mod secret;
pub mod store;

pub use active::ActiveConnections;
pub use key::{ConnectionId, ConnectionIdError, ConnectionRecord, CredentialKey, DriverId, Timestamp};
pub use secret::{Secret, SecretError};
