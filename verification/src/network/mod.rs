//! Network layer: packet framing and per-connection protocol state.

pub mod codec;
pub mod connection;
pub mod frame;

pub use connection::Connection;
