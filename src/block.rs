//! The closed set of block types and their static properties.
use vstd::prelude::*;

verus! {

/// A block type. The declaration order gives each type its raw byte value:
/// `Air` is 0, `Grass` 1, and so on up to `Cobble` 6.
#[derive(Copy, Clone, Debug, PartialEq, Eq, Structural)]
pub enum Block {
    Air,
    Grass,
    Dirt,
    Stone,
    Sand,
    Water,
    Cobble,
}

/// The block type that a raw byte stands for; unknown values are `Air`.
pub open spec fn block_of_raw(v: u8) -> Block {
    if v == 1 {
        Block::Grass
    } else if v == 2 {
        Block::Dirt
    } else if v == 3 {
        Block::Stone
    } else if v == 4 {
        Block::Sand
    } else if v == 5 {
        Block::Water
    } else if v == 6 {
        Block::Cobble
    } else {
        Block::Air
    }
}

impl Block {
    /// The raw byte of this block type, as stored in a chunk.
    pub open spec fn raw(self) -> u8 {
        match self {
            Block::Air => 0,
            Block::Grass => 1,
            Block::Dirt => 2,
            Block::Stone => 3,
            Block::Sand => 4,
            Block::Water => 5,
            Block::Cobble => 6,
        }
    }

    /// Everything but `Air` and `Water` is solid.
    pub open spec fn solid(self) -> bool {
        !(self == Block::Air || self == Block::Water)
    }

    /// Only `Air` is transparent.
    pub open spec fn transparent(self) -> bool {
        self == Block::Air
    }

    /// Decodes a raw byte; never fails, mapping unknown values to `Air`.
    pub fn from_u8(v: u8) -> (r: Block)
        ensures
            r == block_of_raw(v),
    {
        match v {
            1 => Block::Grass,
            2 => Block::Dirt,
            3 => Block::Stone,
            4 => Block::Sand,
            5 => Block::Water,
            6 => Block::Cobble,
            _ => Block::Air,
        }
    }

    /// Encodes this block type as its raw byte.
    pub fn to_u8(self) -> (r: u8)
        ensures
            r == self.raw(),
            block_of_raw(r) == self,
    {
        match self {
            Block::Air => 0,
            Block::Grass => 1,
            Block::Dirt => 2,
            Block::Stone => 3,
            Block::Sand => 4,
            Block::Water => 5,
            Block::Cobble => 6,
        }
    }

    pub fn is_solid(self) -> (r: bool)
        ensures
            r == self.solid(),
    {
        !(self == Block::Air || self == Block::Water)
    }

    pub fn is_transparent(self) -> (r: bool)
        ensures
            r == self.transparent(),
    {
        self == Block::Air
    }
}

} // verus!
