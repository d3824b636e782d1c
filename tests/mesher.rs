use tova_engine::block::Block;
use tova_engine::chunk::Chunk;
use tova_engine::mesher::{
    compute_ao, get_block_world, is_solid_at, should_render_face, MeshVertex, VoxelMesher,
    FACE_BOTTOM, FACE_EAST, FACE_TOP,
};

const ALL: [Block; 7] = [
    Block::Air,
    Block::Grass,
    Block::Dirt,
    Block::Stone,
    Block::Sand,
    Block::Water,
    Block::Cobble,
];

fn with_blocks(cx: i32, cz: i32, cells: &[(usize, usize, usize, Block)]) -> Chunk {
    let mut c = Chunk::new(cx, cz);
    for &(x, y, z, b) in cells {
        c.set(x, y, z, b).unwrap();
    }
    c
}

fn face_count(c: &Chunk) -> usize {
    match VoxelMesher::build(c) {
        None => 0,
        Some((v, i)) => {
            assert_eq!(v.len() % 4, 0);
            assert_eq!(v.len() / 4 * 6, i.len());
            v.len() / 4
        }
    }
}

/// The faces of one cell of a block pair: five against air, one against the
/// other block where the rule says so.
fn expected_pair_faces(a: Block, b: Block) -> usize {
    let rule = |cur: Block, nb: Block| -> usize {
        if cur == Block::Air {
            0
        } else if cur == Block::Water {
            (nb == Block::Air) as usize
        } else {
            (nb == Block::Air || nb == Block::Water) as usize
        }
    };
    let side = |cur: Block| if cur == Block::Air { 0 } else { 5 };
    side(a) + side(b) + rule(a, b) + rule(b, a)
}

#[test]
fn visibility_rule_table() {
    for a in ALL {
        for b in ALL {
            let expected = if a == Block::Air {
                false
            } else if a == Block::Water {
                b == Block::Air
            } else {
                b == Block::Air || b == Block::Water
            };
            assert_eq!(should_render_face(a, b), expected, "{:?} against {:?}", a, b);
        }
    }
}

#[test]
fn every_block_pair_follows_the_rule() {
    for a in ALL {
        for b in ALL {
            let c = with_blocks(0, 0, &[(5, 5, 5, a), (6, 5, 5, b)]);
            assert_eq!(face_count(&c), expected_pair_faces(a, b), "{:?} beside {:?}", a, b);
            let c = with_blocks(0, 0, &[(5, 5, 5, a), (5, 6, 5, b)]);
            assert_eq!(face_count(&c), expected_pair_faces(a, b), "{:?} under {:?}", a, b);
        }
    }
}

#[test]
fn empty_chunk_has_no_mesh() {
    let c = Chunk::new(0, 0);
    assert!(VoxelMesher::build(&c).is_none());
}

#[test]
fn single_stone_voxel() {
    let c = with_blocks(0, 0, &[(0, 1, 0, Block::Stone)]);
    let (v, i) = VoxelMesher::build(&c).unwrap();
    assert_eq!(v.len(), 24);
    assert_eq!(i.len(), 36);
    assert_eq!(v.len() / 4, 6);
    assert!(i.iter().all(|&k| (k as usize) < v.len()));
    assert!(v.iter().all(|w| w.ao == 3 && w.block == Block::Stone && w.block_y == 1));
    // East face first, in winding order.
    assert_eq!((v[0].x, v[0].y, v[0].z, v[0].face), (1, 1, 0, FACE_EAST));
    assert_eq!((v[1].x, v[1].y, v[1].z), (1, 2, 0));
    assert_eq!((v[2].x, v[2].y, v[2].z), (1, 2, 1));
    assert_eq!((v[3].x, v[3].y, v[3].z), (1, 1, 1));
    // Uniform occlusion: split on the diagonal from corner 1 to corner 3.
    assert_eq!(&i[0..6], &[1, 2, 3, 1, 3, 0]);
    assert_eq!(&i[6..12], &[5, 6, 7, 5, 7, 4]);
    // Top face is third.
    assert_eq!(v[8].face, FACE_TOP);
    assert_eq!((v[8].x, v[8].y, v[8].z), (0, 2, 1));
}

#[test]
fn water_above_air_follows_water_rule() {
    // Water against air shows every face; the generic solid rule would
    // give the same here, so a second water cell tells them apart.
    let c = with_blocks(0, 0, &[(3, 10, 3, Block::Water)]);
    assert_eq!(c.get(3, 9, 3), Ok(Block::Air));
    assert_eq!(c.get(3, 11, 3), Ok(Block::Air));
    assert_eq!(face_count(&c), 6);
    let c = with_blocks(0, 0, &[(3, 10, 3, Block::Water), (3, 11, 3, Block::Water)]);
    assert_eq!(face_count(&c), 10);
}

#[test]
fn water_hides_against_stone_but_stone_shows() {
    let c = with_blocks(0, 0, &[(3, 10, 3, Block::Stone), (3, 11, 3, Block::Water)]);
    let (v, _) = VoxelMesher::build(&c).unwrap();
    assert_eq!(v.len() / 4, 11);
    let stone_top = v.iter().filter(|w| w.block == Block::Stone && w.face == FACE_TOP).count();
    let water_bottom = v.iter().filter(|w| w.block == Block::Water && w.face == FACE_BOTTOM).count();
    assert_eq!(stone_top, 4);
    assert_eq!(water_bottom, 0);
}

#[test]
fn build_is_idempotent() {
    let mut c = Chunk::new(-1, 2);
    let mut heights = Vec::new();
    for i in 0..256usize {
        heights.push(40 + (i * 7) % 30);
    }
    c.generate_test(&heights);
    let a = VoxelMesher::build(&c).unwrap();
    let b = VoxelMesher::build(&c).unwrap();
    assert_eq!(a.0, b.0);
    assert_eq!(a.1, b.1);
    assert_eq!(a.0.len() * 6, a.1.len() * 4);
    assert!(a.1.iter().all(|&k| (k as usize) < a.0.len()));
}

#[test]
fn chunk_offset_moves_vertices() {
    let c = with_blocks(2, -3, &[(0, 1, 0, Block::Dirt)]);
    let (v, _) = VoxelMesher::build(&c).unwrap();
    assert_eq!((v[0].x, v[0].y, v[0].z), (33, 1, -48));
}

#[test]
fn chunk_edge_faces_are_emitted() {
    // A full layer of stone: only top and bottom inside, sides at the edges.
    let mut cells = Vec::new();
    for x in 0..16 {
        for z in 0..16 {
            cells.push((x, 5, z, Block::Stone));
        }
    }
    let c = with_blocks(0, 0, &cells);
    assert_eq!(face_count(&c), 256 * 2 + 4 * 16);
}

#[test]
fn compute_ao_levels() {
    assert_eq!(compute_ao(false, false, false), 3);
    assert_eq!(compute_ao(true, false, false), 2);
    assert_eq!(compute_ao(false, true, false), 2);
    assert_eq!(compute_ao(false, false, true), 2);
    assert_eq!(compute_ao(true, false, true), 1);
    assert_eq!(compute_ao(false, true, true), 1);
    assert_eq!(compute_ao(true, true, false), 0);
    assert_eq!(compute_ao(true, true, true), 0);
}

fn top_corner(v: &[MeshVertex], x: i64, y: i64, z: i64) -> MeshVertex {
    *v.iter()
        .find(|w| w.face == FACE_TOP && w.block_y == 1 && (w.x, w.y, w.z) == (x, y, z))
        .unwrap()
}

#[test]
fn enclosed_corner_is_fully_occluded() {
    // Stone at (5,1,5); above it, solid cells on both edges and the diagonal
    // of the top face's corner at (5,2,5).
    let c = with_blocks(
        0,
        0,
        &[
            (5, 1, 5, Block::Stone),
            (4, 2, 5, Block::Stone),
            (5, 2, 4, Block::Stone),
            (4, 2, 4, Block::Stone),
        ],
    );
    let (v, i) = VoxelMesher::build(&c).unwrap();
    assert_eq!(top_corner(&v, 5, 2, 5).ao, 0);
    assert_eq!(top_corner(&v, 6, 2, 6).ao, 3);
    assert_eq!(top_corner(&v, 6, 2, 5).ao, 2);
    assert_eq!(top_corner(&v, 5, 2, 6).ao, 2);
    // Corner 3 is the darkest, so the quad splits on corners 0 and 2.
    let pos = v
        .iter()
        .position(|w| w.face == FACE_TOP && w.block_y == 1 && w.x == 5 && w.z == 6)
        .unwrap();
    let base = (pos - pos % 4) as u32;
    let quad = pos / 4;
    assert_eq!(
        &i[quad * 6..quad * 6 + 6],
        &[base, base + 1, base + 2, base, base + 2, base + 3]
    );
}

#[test]
fn two_edge_probes_occlude_whatever_the_diagonal() {
    let c = with_blocks(
        0,
        0,
        &[(5, 1, 5, Block::Stone), (4, 2, 5, Block::Stone), (5, 2, 4, Block::Cobble)],
    );
    let (v, _) = VoxelMesher::build(&c).unwrap();
    assert_eq!(top_corner(&v, 5, 2, 5).ao, 0);
}

#[test]
fn open_corner_is_fully_lit() {
    let c = with_blocks(0, 0, &[(5, 1, 5, Block::Sand), (4, 2, 5, Block::Water)]);
    let (v, _) = VoxelMesher::build(&c).unwrap();
    assert!(v.iter().filter(|w| w.block == Block::Sand).all(|w| w.ao == 3));
}

#[test]
fn world_lookup_treats_outside_as_air() {
    let c = with_blocks(1, 1, &[(0, 0, 0, Block::Stone), (15, 127, 15, Block::Grass)]);
    assert_eq!(get_block_world(&c, 16, 0, 16), Block::Stone);
    assert_eq!(get_block_world(&c, 31, 127, 31), Block::Grass);
    assert_eq!(get_block_world(&c, 15, 0, 16), Block::Air);
    assert_eq!(get_block_world(&c, 16, -1, 16), Block::Air);
    assert_eq!(get_block_world(&c, 31, 128, 31), Block::Air);
    assert_eq!(get_block_world(&c, 32, 127, 31), Block::Air);
    assert_eq!(get_block_world(&c, i64::MIN, 0, i64::MAX), Block::Air);
    assert!(is_solid_at(&c, 16, 0, 16));
    assert!(!is_solid_at(&c, 17, 0, 16));
}
