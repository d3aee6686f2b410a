//! Game state: players, worlds and entities.

pub mod directory;
pub mod entity;
pub mod player;
pub mod world;

pub use directory::PlayerDirectory;
pub use world::ChunkPosition;
