//! A SOCKS5 proxy core: wire codec, authentication and the per-connection
//! session state machine, all as pure functions over bytes.

pub mod auth;
pub mod bytes;
pub mod error;
pub mod protocol;
pub mod resolve;
pub mod session;
pub mod text;
pub mod wire;

pub use auth::User;
pub use error::Error;
pub use protocol::{AuthMethods, ResponseCode};
