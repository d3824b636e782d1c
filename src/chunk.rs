//! A chunk: a dense column of voxels, and its terrain fill.
use vstd::prelude::*;

use crate::block::{block_of_raw, Block};

verus! {

/// Cells along each horizontal edge of a chunk.
pub const CHUNK_SIZE: usize = 16;

/// Cells along the vertical axis; a chunk spans the whole world height.
pub const WORLD_HEIGHT: usize = 128;

/// Terrain gaps below this level are filled with water.
pub const SEA_LEVEL: usize = 48;

/// Columns in a chunk.
pub const CHUNK_COLUMNS: usize = CHUNK_SIZE * CHUNK_SIZE;

/// Cells in a chunk.
pub const CHUNK_CELLS: usize = CHUNK_SIZE * CHUNK_SIZE * WORLD_HEIGHT;

/// Failure of a local-coordinate access.
#[derive(Copy, Clone, Debug, PartialEq, Eq, Structural)]
pub enum ChunkError {
    /// A local coordinate lies outside the chunk.
    IndexOutOfRange,
}

/// Whether `(x, y, z)` is a local cell of a chunk.
pub open spec fn in_bounds(x: int, y: int, z: int) -> bool {
    0 <= x < CHUNK_SIZE && 0 <= y < WORLD_HEIGHT && 0 <= z < CHUNK_SIZE
}

/// Linear index of a local cell: x fastest, then z, then y.
pub open spec fn cell_index(x: int, y: int, z: int) -> int {
    x + CHUNK_SIZE * (z + CHUNK_SIZE * y)
}

/// Linear index of a column `(x, z)` in a table of per-column values.
pub open spec fn column_index(x: int, z: int) -> int {
    x + CHUNK_SIZE * z
}

/// `a - b`, or 0 where `b > a`.
pub open spec fn saturating_sub(a: int, b: int) -> int {
    if a >= b {
        a - b
    } else {
        0
    }
}

/// Terrain height `raw` held to `[1, WORLD_HEIGHT - 1]`.
pub open spec fn clamped_height(raw: int) -> int {
    if raw < 1 {
        1
    } else if raw > WORLD_HEIGHT - 1 {
        WORLD_HEIGHT - 1
    } else {
        raw
    }
}

/// The block at height `y` of a column whose terrain height is `h`.
pub open spec fn terrain_block(y: int, h: int) -> Block {
    let shore = h <= SEA_LEVEL + 2;
    if y == 0 {
        Block::Stone
    } else if y < saturating_sub(h, 4) {
        Block::Stone
    } else if y < saturating_sub(h, 1) {
        if shore { Block::Sand } else { Block::Dirt }
    } else if y < h {
        if shore { Block::Sand } else { Block::Grass }
    } else if y < SEA_LEVEL {
        Block::Water
    } else {
        Block::Air
    }
}

/// The raw cells of a chunk filled from per-column heights
/// (`heights[column_index(x, z)]` is the height of column `(x, z)`).
pub open spec fn terrain_cells(heights: Seq<usize>) -> Seq<u8> {
    Seq::new(
        CHUNK_CELLS as nat,
        |i: int| terrain_block(i / (CHUNK_COLUMNS as int), heights[i % (CHUNK_COLUMNS as int)] as int).raw(),
    )
}

/// Holds a terrain height to `[1, WORLD_HEIGHT - 1]`, so that no column is
/// degenerate.
pub fn clamp_height(raw: usize) -> (r: usize)
    ensures
        r as int == clamped_height(raw as int),
        1 <= r <= WORLD_HEIGHT - 1,
{
    if raw < 1 {
        1
    } else if raw > WORLD_HEIGHT - 1 {
        WORLD_HEIGHT - 1
    } else {
        raw
    }
}

/// The block at height `y` of a column of terrain height `h`.
pub fn column_block(y: usize, h: usize) -> (r: Block)
    ensures
        r == terrain_block(y as int, h as int),
{
    let shore = h <= SEA_LEVEL + 2;
    let stone_top: usize = if h >= 4 { h - 4 } else { 0 };
    let fill_top: usize = if h >= 1 { h - 1 } else { 0 };
    if y == 0 {
        Block::Stone
    } else if y < stone_top {
        Block::Stone
    } else if y < fill_top {
        if shore { Block::Sand } else { Block::Dirt }
    } else if y < h {
        if shore { Block::Sand } else { Block::Grass }
    } else if y < SEA_LEVEL {
        Block::Water
    } else {
        Block::Air
    }
}

/// A chunk at grid coordinates `(cx, cz)`; its cell `(x, y, z)` is
/// `blocks[cell_index(x, y, z)]`.
pub struct Chunk {
    pub cx: i32,
    pub cz: i32,
    pub blocks: Vec<u8>,
}

impl Chunk {
    /// The chunk holds exactly one raw value per cell.
    pub open spec fn wf(&self) -> bool {
        self.blocks@.len() == CHUNK_CELLS
    }

    /// The block type of local cell `(x, y, z)`.
    pub open spec fn block_at(&self, x: int, y: int, z: int) -> Block {
        block_of_raw(self.blocks@[cell_index(x, y, z)])
    }

    /// An all-air chunk at grid coordinates `(cx, cz)`.
    pub fn new(cx: i32, cz: i32) -> (r: Chunk)
        ensures
            r.wf(),
            r.cx == cx,
            r.cz == cz,
            forall|i: int| 0 <= i < CHUNK_CELLS ==> r.blocks@[i] == 0,
    {
        Chunk { cx, cz, blocks: vec![0u8; CHUNK_CELLS] }
    }

    /// Linear index of local cell `(x, y, z)`.
    pub fn index(x: usize, y: usize, z: usize) -> (r: usize)
        requires
            cell_index(x as int, y as int, z as int) <= usize::MAX,
        ensures
            r as int == cell_index(x as int, y as int, z as int),
    {
        x + CHUNK_SIZE * (z + CHUNK_SIZE * y)
    }

    /// The block at local cell `(x, y, z)`, or an error outside the chunk.
    pub fn get(&self, x: usize, y: usize, z: usize) -> (r: Result<Block, ChunkError>)
        requires
            self.wf(),
        ensures
            in_bounds(x as int, y as int, z as int) ==> r == Ok::<Block, ChunkError>(
                self.block_at(x as int, y as int, z as int),
            ),
            !in_bounds(x as int, y as int, z as int) ==> r == Err::<Block, ChunkError>(
                ChunkError::IndexOutOfRange,
            ),
    {
        if x < CHUNK_SIZE && y < WORLD_HEIGHT && z < CHUNK_SIZE {
            Ok(Block::from_u8(self.blocks[Self::index(x, y, z)]))
        } else {
            Err(ChunkError::IndexOutOfRange)
        }
    }

    /// Stores `block` at local cell `(x, y, z)`; outside the chunk it fails
    /// and leaves the chunk as it was.
    pub fn set(&mut self, x: usize, y: usize, z: usize, block: Block) -> (r: Result<(), ChunkError>)
        requires
            old(self).wf(),
        ensures
            final(self).wf(),
            final(self).cx == old(self).cx,
            final(self).cz == old(self).cz,
            in_bounds(x as int, y as int, z as int) ==> r == Ok::<(), ChunkError>(())
                && final(self).blocks@ == old(self).blocks@.update(
                cell_index(x as int, y as int, z as int),
                block.raw(),
            ),
            !in_bounds(x as int, y as int, z as int) ==> r == Err::<(), ChunkError>(
                ChunkError::IndexOutOfRange,
            ) && final(self).blocks@ == old(self).blocks@,
    {
        if x < CHUNK_SIZE && y < WORLD_HEIGHT && z < CHUNK_SIZE {
            let i = Self::index(x, y, z);
            self.blocks.set(i, block.to_u8());
            Ok(())
        } else {
            Err(ChunkError::IndexOutOfRange)
        }
    }

    /// Fills every column with terrain: `heights[column_index(x, z)]` is the
    /// terrain height of column `(x, z)`. Cell `(x, y, z)` becomes
    /// `terrain_block(y, heights[column_index(x, z)])`.
    pub fn generate_test(&mut self, heights: &Vec<usize>)
        requires
            old(self).wf(),
            heights@.len() == CHUNK_COLUMNS,
        ensures
            final(self).wf(),
            final(self).cx == old(self).cx,
            final(self).cz == old(self).cz,
            final(self).blocks@ == terrain_cells(heights@),
            forall|x: int, y: int, z: int|
                in_bounds(x, y, z) ==> #[trigger] final(self).block_at(x, y, z) == terrain_block(
                    y,
                    heights@[column_index(x, z)] as int,
                ),
    {
        let mut i: usize = 0;
        while i < CHUNK_CELLS
            invariant
                i <= CHUNK_CELLS,
                self.wf(),
                self.cx == old(self).cx,
                self.cz == old(self).cz,
                heights@.len() == CHUNK_COLUMNS,
                forall|j: int| 0 <= j < i ==> self.blocks@[j] == #[trigger] terrain_cells(heights@)[j],
            decreases CHUNK_CELLS - i,
        {
            let y = i / CHUNK_COLUMNS;
            let h = heights[i % CHUNK_COLUMNS];
            self.blocks.set(i, column_block(y, h).to_u8());
            i = i + 1;
        }
        assert(self.blocks@ =~= terrain_cells(heights@));
        assert forall|x: int, y: int, z: int| in_bounds(x, y, z) implies #[trigger] self.block_at(x, y, z)
            == terrain_block(y, heights@[column_index(x, z)] as int) by {
            let i = cell_index(x, y, z);
            assert(i / (CHUNK_COLUMNS as int) == y && i % (CHUNK_COLUMNS as int) == column_index(x, z)) by (nonlinear_arith)
                requires i == x + 16 * (z + 16 * y), 0 <= x < 16, 0 <= z < 16, 0 <= y < 128;
            assert(self.blocks@[i] == terrain_block(y, heights@[column_index(x, z)] as int).raw());
        }
    }
}

/// Terrain generation is deterministic: two chunks filled from the same column
/// heights hold the same cells, whatever they held before.
pub proof fn lemma_terrain_deterministic(a: Chunk, b: Chunk, heights: Seq<usize>)
    requires
        a.blocks@ == terrain_cells(heights),
        b.blocks@ == terrain_cells(heights),
    ensures
        a.blocks@ == b.blocks@,
        forall|x: int, y: int, z: int| in_bounds(x, y, z) ==> #[trigger] a.block_at(x, y, z) == b.block_at(x, y, z),
{
}

} // verus!
