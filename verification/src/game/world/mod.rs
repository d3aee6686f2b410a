//! World: chunks, blocks and registries.

use vstd::prelude::*;

use crate::protocol::wire::signed32;

pub mod chunk;
pub mod registry;

verus! {

/// Chunk position: the x and z coordinates of a chunk, in chunks.
#[derive(Debug, Clone, Copy, PartialEq, Eq, Hash, Structural)]
pub struct ChunkPosition {
    /// X coordinate (in chunks).
    pub x: i32,
    /// Z coordinate (in chunks).
    pub z: i32,
}

/// Sixteen times a chunk coordinate, in 32-bit two's-complement arithmetic.
pub open spec fn times_sixteen(c: i32) -> int {
    signed32((c * 16 + 0x10_0000_0000) as nat)
}

/// Sixteen times a chunk coordinate, wrapping around like a 32-bit shift.
fn origin(c: i32) -> (r: i32)
    ensures
        r == times_sixteen(c),
        -0x800_0000 <= c < 0x800_0000 ==> r == c * 16,
{
    let wide: u64 = ((c as i64) * 16 + 0x10_0000_0000) as u64;
    let low = wide % 0x1_0000_0000;
    if low < 0x8000_0000 {
        low as i32
    } else {
        ((low as i64) - 0x1_0000_0000) as i32
    }
}

impl ChunkPosition {
    /// A chunk position.
    pub fn new(x: i32, z: i32) -> (p: Self)
        ensures
            p == (ChunkPosition { x, z }),
    {
        Self { x, z }
    }

    /// The chunk that holds the block column with the given world
    /// coordinates.
    pub fn from_block_coords(x: i32, z: i32) -> (p: Self)
        ensures
            p.x == if x >= 0 {
                x / 16
            } else {
                -((-x + 15) / 16)
            },
            p.z == if z >= 0 {
                z / 16
            } else {
                -((-z + 15) / 16)
            },
            p.x * 16 <= x < p.x * 16 + 16,
            p.z * 16 <= z < p.z * 16 + 16,
    {
        Self { x: floor_sixteenth(x), z: floor_sixteenth(z) }
    }

    /// The world x coordinate of the origin of this chunk.
    pub fn world_x(&self) -> (r: i32)
        ensures
            r == times_sixteen(self.x),
            -0x800_0000 <= self.x < 0x800_0000 ==> r == self.x * 16,
    {
        origin(self.x)
    }

    /// The world z coordinate of the origin of this chunk.
    pub fn world_z(&self) -> (r: i32)
        ensures
            r == times_sixteen(self.z),
            -0x800_0000 <= self.z < 0x800_0000 ==> r == self.z * 16,
    {
        origin(self.z)
    }
}

/// A block coordinate divided by sixteen, rounded down.
fn floor_sixteenth(c: i32) -> (r: i32)
    ensures
        r == if c >= 0 {
            c / 16
        } else {
            -((-c + 15) / 16)
        },
        r * 16 <= c < r * 16 + 16,
{
    if c >= 0 {
        c / 16
    } else {
        let up: i64 = (-(c as i64) + 15) / 16;
        (-up) as i32
    }
}

} // verus!
