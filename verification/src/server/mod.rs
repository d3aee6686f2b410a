//! The server: what it answers to each packet in each connection state.

pub mod minecraft;

pub use minecraft::MinecraftServer;
