//! Voxel world storage and mesh extraction: block types, chunks with their
//! terrain fill, and a mesher that culls hidden faces and computes
//! per-corner ambient occlusion.
use vstd::prelude::*;

pub mod block;
pub mod chunk;
pub mod mesher;

pub use block::Block;
pub use chunk::{Chunk, ChunkError};
pub use mesher::{MeshVertex, VoxelMesher};

verus! {

} // verus!
