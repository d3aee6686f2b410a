//! Server configuration.

pub mod properties;
pub mod server;
pub mod text;

pub use server::ServerConfig;
