use tova_engine::block::Block;
use tova_engine::chunk::{
    clamp_height, column_block, Chunk, ChunkError, CHUNK_CELLS, CHUNK_COLUMNS, CHUNK_SIZE,
    SEA_LEVEL, WORLD_HEIGHT,
};

fn filled(cx: i32, cz: i32, h: usize) -> Chunk {
    let mut c = Chunk::new(cx, cz);
    let heights = vec![h; CHUNK_COLUMNS];
    c.generate_test(&heights);
    c
}

fn column(c: &Chunk, x: usize, z: usize) -> Vec<Block> {
    (0..WORLD_HEIGHT).map(|y| c.get(x, y, z).unwrap()).collect()
}

#[test]
fn new_chunk_is_all_air() {
    let c = Chunk::new(3, -2);
    assert_eq!(c.cx, 3);
    assert_eq!(c.cz, -2);
    assert_eq!(c.blocks.len(), CHUNK_SIZE * CHUNK_SIZE * WORLD_HEIGHT);
    assert_eq!(CHUNK_CELLS, 32768);
    assert!(c.blocks.iter().all(|&b| b == 0));
    assert_eq!(c.get(15, 127, 15), Ok(Block::Air));
}

#[test]
fn index_is_x_then_z_then_y() {
    assert_eq!(Chunk::index(0, 0, 0), 0);
    assert_eq!(Chunk::index(1, 0, 0), 1);
    assert_eq!(Chunk::index(0, 0, 1), 16);
    assert_eq!(Chunk::index(0, 1, 0), 256);
    assert_eq!(Chunk::index(1, 2, 3), 561);
    assert_eq!(Chunk::index(15, 127, 15), 32767);
}

#[test]
fn set_then_get() {
    let mut c = Chunk::new(0, 0);
    assert_eq!(c.set(4, 70, 9, Block::Cobble), Ok(()));
    assert_eq!(c.get(4, 70, 9), Ok(Block::Cobble));
    assert_eq!(c.blocks[Chunk::index(4, 70, 9)], 6);
    assert_eq!(c.get(5, 70, 9), Ok(Block::Air));
}

#[test]
fn out_of_range_access_fails() {
    let mut c = Chunk::new(0, 0);
    assert_eq!(c.get(16, 0, 0), Err(ChunkError::IndexOutOfRange));
    assert_eq!(c.get(0, 128, 0), Err(ChunkError::IndexOutOfRange));
    assert_eq!(c.get(0, 0, 16), Err(ChunkError::IndexOutOfRange));
    assert_eq!(c.set(0, 0, 16, Block::Stone), Err(ChunkError::IndexOutOfRange));
    assert_eq!(c.set(16, 0, 0, Block::Stone), Err(ChunkError::IndexOutOfRange));
    assert_eq!(c.set(0, 200, 0, Block::Stone), Err(ChunkError::IndexOutOfRange));
    assert!(c.blocks.iter().all(|&b| b == 0));
}

#[test]
fn clamp_height_bounds() {
    assert_eq!(clamp_height(0), 1);
    assert_eq!(clamp_height(1), 1);
    assert_eq!(clamp_height(64), 64);
    assert_eq!(clamp_height(127), 127);
    assert_eq!(clamp_height(128), 127);
    assert_eq!(clamp_height(usize::MAX), WORLD_HEIGHT - 1);
}

#[test]
fn highland_column() {
    let c = filled(0, 0, 60);
    let col = column(&c, 7, 3);
    assert_eq!(col[0], Block::Stone);
    assert!(col[1..56].iter().all(|&b| b == Block::Stone));
    assert!(col[56..59].iter().all(|&b| b == Block::Dirt));
    assert_eq!(col[59], Block::Grass);
    assert!(col[60..].iter().all(|&b| b == Block::Air));
}

#[test]
fn shore_column_uses_sand_and_water() {
    let c = filled(1, 1, 45);
    let col = column(&c, 0, 15);
    assert!(col[0..41].iter().all(|&b| b == Block::Stone));
    assert!(col[41..45].iter().all(|&b| b == Block::Sand));
    assert!(col[45..SEA_LEVEL].iter().all(|&b| b == Block::Water));
    assert!(col[SEA_LEVEL..].iter().all(|&b| b == Block::Air));
}

#[test]
fn shore_threshold_is_two_above_sea_level() {
    assert_eq!(column_block(49, 50), Block::Sand);
    assert_eq!(column_block(46, 50), Block::Sand);
    assert_eq!(column_block(50, 51), Block::Grass);
    assert_eq!(column_block(47, 51), Block::Dirt);
    assert_eq!(column_block(46, 51), Block::Stone);
    assert_eq!(column_block(51, 51), Block::Air);
}

#[test]
fn lowest_column_is_bedrock_under_water() {
    let c = filled(0, 0, 1);
    let col = column(&c, 0, 0);
    assert_eq!(col[0], Block::Stone);
    assert!(col[1..SEA_LEVEL].iter().all(|&b| b == Block::Water));
    assert!(col[SEA_LEVEL..].iter().all(|&b| b == Block::Air));
}

#[test]
fn heights_are_read_per_column() {
    let mut c = Chunk::new(0, 0);
    let mut heights = vec![60usize; CHUNK_COLUMNS];
    heights[3 + CHUNK_SIZE * 5] = 100;
    c.generate_test(&heights);
    assert_eq!(c.get(3, 99, 5), Ok(Block::Grass));
    assert_eq!(c.get(5, 99, 3), Ok(Block::Air));
    assert_eq!(c.get(5, 59, 3), Ok(Block::Grass));
}

#[test]
fn generate_is_deterministic() {
    let mut heights = Vec::new();
    for i in 0..CHUNK_COLUMNS {
        heights.push(clamp_height(30 + i % 40));
    }
    let mut a = Chunk::new(2, 5);
    let mut b = Chunk::new(2, 5);
    b.set(1, 1, 1, Block::Cobble).unwrap();
    a.generate_test(&heights);
    b.generate_test(&heights);
    assert_eq!(a.blocks, b.blocks);
    a.generate_test(&heights);
    assert_eq!(a.blocks, b.blocks);
}
