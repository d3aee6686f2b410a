//! Players.

use vstd::prelude::*;

verus! {

/// Player game mode.
#[derive(Debug, Clone, Copy, PartialEq, Eq, Structural)]
pub enum GameMode {
    /// Survival mode.
    Survival,
    /// Creative mode.
    Creative,
    /// Adventure mode.
    Adventure,
    /// Spectator mode.
    Spectator,
}

impl GameMode {
    /// The number that stands for the mode on the wire.
    pub fn id(&self) -> (n: u8)
        ensures
            n == match *self {
                GameMode::Survival => 0u8,
                GameMode::Creative => 1u8,
                GameMode::Adventure => 2u8,
                GameMode::Spectator => 3u8,
            },
    {
        match self {
            GameMode::Survival => 0,
            GameMode::Creative => 1,
            GameMode::Adventure => 2,
            GameMode::Spectator => 3,
        }
    }

    /// The mode that a number stands for, if it stands for one.
    pub fn from_id(n: u8) -> (mode: Option<GameMode>)
        ensures
            match mode {
                Some(m) => m.id_spec() == n,
                None => n > 3,
            },
    {
        match n {
            0 => Some(GameMode::Survival),
            1 => Some(GameMode::Creative),
            2 => Some(GameMode::Adventure),
            3 => Some(GameMode::Spectator),
            _ => None,
        }
    }

    /// The number that stands for the mode on the wire.
    pub open spec fn id_spec(self) -> u8 {
        match self {
            GameMode::Survival => 0u8,
            GameMode::Creative => 1u8,
            GameMode::Adventure => 2u8,
            GameMode::Spectator => 3u8,
        }
    }
}

} // verus!
