//! Chunks and their block data.

use vstd::prelude::*;

use crate::game::world::ChunkPosition;

verus! {

/// Width and depth of a chunk, in blocks.
pub const CHUNK_SIZE: usize = 16;

/// Height of a chunk, in blocks.
pub const CHUNK_HEIGHT: usize = 384;

/// Lowest Y coordinate of a chunk.
pub const CHUNK_MIN_Y: i32 = -64;

/// Highest Y coordinate of a chunk.
pub const CHUNK_MAX_Y: i32 = 319;

/// Number of blocks in a chunk.
pub const CHUNK_VOLUME: usize = 98304;

/// A chunk: a column of 16 by 384 by 16 blocks.
pub struct Chunk {
    position: ChunkPosition,
    blocks: Vec<u32>,
    modified: bool,
}

/// Where the block at local coordinates stands in the block data: layers
/// from the bottom, rows within a layer, blocks within a row.
pub open spec fn block_index(x: int, y: int, z: int) -> int {
    (y * 16 + z) * 16 + x
}

/// Whether local coordinates lie within a chunk.
pub open spec fn in_chunk(x: int, y: int, z: int) -> bool {
    0 <= x < 16 && 0 <= y < 384 && 0 <= z < 16
}

/// The number of blocks other than air among the first `n` of the data.
pub open spec fn solid_count(blocks: Seq<u32>, n: int) -> nat
    decreases n,
{
    if n <= 0 {
        0
    } else {
        solid_count(blocks, n - 1) + if blocks[n - 1] != 0 {
            1nat
        } else {
            0nat
        }
    }
}

/// The block of flat terrain at a height: bedrock at the bottom, stone up
/// to 59, dirt up to 62, grass at 63 and air above.
pub open spec fn flat_block(y: int) -> u32 {
    if y == 0 {
        7
    } else if y < 60 {
        1
    } else if y < 63 {
        3
    } else if y == 63 {
        2
    } else {
        0
    }
}

impl Chunk {
    #[verifier::type_invariant]
    spec fn full(self) -> bool {
        self.blocks@.len() == 98304
    }

    /// The block data, bottom layer first.
    pub closed spec fn view(&self) -> Seq<u32> {
        self.blocks@
    }

    /// The block at local coordinates.
    pub open spec fn block_at(&self, x: int, y: int, z: int) -> u32 {
        self.view()[block_index(x, y, z)]
    }

    /// Whether the chunk was changed since it was made or saved.
    pub closed spec fn spec_modified(&self) -> bool {
        self.modified
    }

    /// The position of the chunk.
    pub closed spec fn spec_position(&self) -> ChunkPosition {
        self.position
    }

    /// A chunk of air.
    pub fn new(position: ChunkPosition) -> (c: Self)
        ensures
            c.spec_position() == position,
            !c.spec_modified(),
            c.view().len() == 98304,
            forall|i: int| 0 <= i < 98304 ==> c.view()[i] == 0,
    {
        let blocks: Vec<u32> = vec![0u32; 98304];
        Self { position, blocks, modified: false }
    }

    /// A chunk of flat terrain: bedrock, 59 layers of stone, 3 of dirt and
    /// one of grass.
    pub fn generate_flat(position: ChunkPosition) -> (c: Self)
        ensures
            c.spec_position() == position,
            !c.spec_modified(),
            c.view().len() == 98304,
            forall|x: int, y: int, z: int|
                in_chunk(x, y, z) ==> c.view()[#[trigger] block_index(x, y, z)] == flat_block(y),
    {
        let mut blocks: Vec<u32> = vec![0u32; 98304];
        let mut i: usize = 0;
        while i < 64 * 256
            invariant
                i <= 64 * 256,
                blocks@.len() == 98304,
                forall|k: int| 0 <= k < i ==> blocks@[k] == flat_block(k / 256),
                forall|k: int| i <= k < 98304 ==> blocks@[k] == 0,
            decreases 64 * 256 - i,
        {
            let y = i / 256;
            let block: u32 = if y == 0 {
                7
            } else if y < 60 {
                1
            } else if y < 63 {
                3
            } else {
                2
            };
            blocks[i] = block;
            i = i + 1;
        }
        let c = Self { position, blocks, modified: false };
        proof {
            assert forall|x: int, y: int, z: int| in_chunk(x, y, z) implies c.view()[#[trigger] block_index(
                x,
                y,
                z,
            )] == flat_block(y) by {
                let k = block_index(x, y, z);
                assert(k == y * 256 + (z * 16 + x));
                assert(k / 256 == y);
            }
        }
        c
    }

    /// The position of the chunk.
    pub fn position(&self) -> (p: ChunkPosition)
        ensures
            p == self.spec_position(),
    {
        self.position
    }

    /// The block at local coordinates, if they lie within the chunk.
    pub fn get_block(&self, x: usize, y: usize, z: usize) -> (r: Option<u32>)
        ensures
            self.view().len() == 98304,
            r == if in_chunk(x as int, y as int, z as int) {
                Some(self.block_at(x as int, y as int, z as int))
            } else {
                None
            },
    {
        proof {
            use_type_invariant(self);
        }
        if x >= CHUNK_SIZE || z >= CHUNK_SIZE || y >= CHUNK_HEIGHT {
            return None;
        }
        Some(self.blocks[(y * 16 + z) * 16 + x])
    }

    /// Sets the block at local coordinates and marks the chunk as
    /// modified, if the coordinates lie within the chunk; says whether they
    /// do.
    pub fn set_block(&mut self, x: usize, y: usize, z: usize, block_id: u32) -> (r: bool)
        ensures
            r == in_chunk(x as int, y as int, z as int),
            old(self).view().len() == 98304,
            final(self).view().len() == 98304,
            final(self).spec_position() == old(self).spec_position(),
            r ==> final(self).view() == old(self).view().update(
                block_index(x as int, y as int, z as int),
                block_id,
            ) && final(self).spec_modified(),
            !r ==> final(self).view() == old(self).view() && final(self).spec_modified() == old(self).spec_modified(),
    {
        proof {
            use_type_invariant(&*self);
        }
        if x >= CHUNK_SIZE || z >= CHUNK_SIZE || y >= CHUNK_HEIGHT {
            return false;
        }
        self.blocks[(y * 16 + z) * 16 + x] = block_id;
        self.modified = true;
        true
    }

    /// Whether the chunk was changed since it was made or saved.
    pub fn is_modified(&self) -> (b: bool)
        ensures
            b == self.spec_modified(),
    {
        self.modified
    }

    /// Marks the chunk as saved.
    pub fn mark_saved(&mut self)
        ensures
            !final(self).spec_modified(),
            final(self).view() == old(self).view(),
            final(self).spec_position() == old(self).spec_position(),
    {
        proof {
            use_type_invariant(&*self);
        }
        self.modified = false;
    }

    /// The height of the highest block other than air in a column, if the
    /// column lies within the chunk and holds such a block.
    pub fn get_height(&self, x: usize, z: usize) -> (r: Option<usize>)
        ensures
            self.view().len() == 98304,
            match r {
                Some(y) => x < 16 && z < 16 && y < 384 && self.block_at(x as int, y as int, z as int)
                    != 0 && forall|above: int|
                    y < above < 384 ==> self.block_at(x as int, above, z as int) == 0,
                None => x >= 16 || z >= 16 || forall|y: int|
                    0 <= y < 384 ==> self.block_at(x as int, y, z as int) == 0,
            },
    {
        proof {
            use_type_invariant(self);
        }
        if x >= CHUNK_SIZE || z >= CHUNK_SIZE {
            return None;
        }
        let mut y: usize = CHUNK_HEIGHT;
        while y > 0
            invariant
                y <= 384,
                x < 16,
                z < 16,
                self.blocks@.len() == 98304,
                forall|above: int|
                    y <= above < 384 ==> self.block_at(x as int, above, z as int) == 0,
            decreases y,
        {
            y = y - 1;
            if self.blocks[(y * 16 + z) * 16 + x] != 0 {
                return Some(y);
            }
        }
        None
    }

    /// Whether local coordinates lie within a chunk.
    pub fn is_valid_position(x: usize, y: usize, z: usize) -> (b: bool)
        ensures
            b == in_chunk(x as int, y as int, z as int),
    {
        x < CHUNK_SIZE && y < CHUNK_HEIGHT && z < CHUNK_SIZE
    }

    /// All block data, bottom layer first; within a layer row by row.
    pub fn blocks(&self) -> (b: &Vec<u32>)
        ensures
            b@ == self.view(),
            b@.len() == 98304,
    {
        proof {
            use_type_invariant(self);
        }
        &self.blocks
    }

    /// The number of blocks other than air.
    pub fn count_blocks(&self) -> (n: usize)
        ensures
            n == solid_count(self.view(), 98304),
    {
        proof {
            use_type_invariant(self);
        }
        let mut count: usize = 0;
        let mut i: usize = 0;
        while i < 98304
            invariant
                i <= 98304,
                self.blocks@.len() == 98304,
                count == solid_count(self.blocks@, i as int),
                count <= i,
            decreases 98304 - i,
        {
            if self.blocks[i] != 0 {
                count = count + 1;
            }
            i = i + 1;
        }
        count
    }

    /// Whether the chunk holds nothing but air.
    pub fn is_empty(&self) -> (b: bool)
        ensures
            b == (solid_count(self.view(), 98304) == 0),
    {
        self.count_blocks() == 0
    }
}

/// A chunk without a block other than air holds air everywhere.
pub proof fn lemma_empty_is_air(blocks: Seq<u32>, n: int)
    requires
        0 <= n <= blocks.len(),
        solid_count(blocks, n) == 0,
    ensures
        forall|i: int| 0 <= i < n ==> blocks[i] == 0,
    decreases n,
{
    if n > 0 {
        lemma_empty_is_air(blocks, n - 1);
    }
}

} // verus!
