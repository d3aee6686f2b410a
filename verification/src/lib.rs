//! A Minecraft Java Edition protocol engine (protocol 770) whose wire codec,
//! framing, compression and connection state machine carry machine-checked
//! contracts.

pub mod client;
pub mod config;
pub mod error;
pub mod favicon;
pub mod game;
pub mod network;
pub mod protocol;
pub mod server;
pub mod text_map;

pub use error::{ErrorKind, ServerError};
