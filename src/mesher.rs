//! Mesh extraction: face culling and per-corner ambient occlusion.
use vstd::prelude::*;

use crate::block::Block;
use crate::chunk::{cell_index, in_bounds, Chunk, CHUNK_CELLS, CHUNK_COLUMNS, CHUNK_SIZE, WORLD_HEIGHT};

verus! {

/// Number of cube faces; faces are numbered in the order below.
pub const FACE_COUNT: usize = 6;

/// The +X face.
pub const FACE_EAST: usize = 0;

/// The -X face.
pub const FACE_WEST: usize = 1;

/// The +Y face.
pub const FACE_TOP: usize = 2;

/// The -Y face.
pub const FACE_BOTTOM: usize = 3;

/// The +Z face.
pub const FACE_SOUTH: usize = 4;

/// The -Z face.
pub const FACE_NORTH: usize = 5;

/// A cell offset or position as mathematical integers.
pub type Int3 = (int, int, int);

pub open spec fn add3(a: Int3, b: Int3) -> Int3 {
    (a.0 + b.0, a.1 + b.1, a.2 + b.2)
}

pub open spec fn int3(t: (i64, i64, i64)) -> Int3 {
    (t.0 as int, t.1 as int, t.2 as int)
}

/// Component `axis` (0 = x, 1 = y, 2 = z) of `p`.
pub open spec fn component(p: Int3, axis: int) -> int {
    if axis == 0 {
        p.0
    } else if axis == 1 {
        p.1
    } else {
        p.2
    }
}

/// The vector of length `s` along `axis`.
pub open spec fn along(axis: int, s: int) -> Int3 {
    if axis == 0 {
        (s, 0, 0)
    } else if axis == 1 {
        (0, s, 0)
    } else {
        (0, 0, s)
    }
}

/// Offset from a cell to its neighbor across face `f`; also the face normal.
pub open spec fn face_offset(f: int) -> Int3 {
    if f == 0 {
        (1, 0, 0)
    } else if f == 1 {
        (-1, 0, 0)
    } else if f == 2 {
        (0, 1, 0)
    } else if f == 3 {
        (0, -1, 0)
    } else if f == 4 {
        (0, 0, 1)
    } else {
        (0, 0, -1)
    }
}

/// Corner `k` of face `f`, relative to the cell's minimum corner, in the
/// face's counter-clockwise winding order.
pub open spec fn face_corner(f: int, k: int) -> Int3 {
    if f == 0 {
        if k == 0 { (1, 0, 0) } else if k == 1 { (1, 1, 0) } else if k == 2 { (1, 1, 1) } else { (1, 0, 1) }
    } else if f == 1 {
        if k == 0 { (0, 0, 1) } else if k == 1 { (0, 1, 1) } else if k == 2 { (0, 1, 0) } else { (0, 0, 0) }
    } else if f == 2 {
        if k == 0 { (0, 1, 1) } else if k == 1 { (1, 1, 1) } else if k == 2 { (1, 1, 0) } else { (0, 1, 0) }
    } else if f == 3 {
        if k == 0 { (0, 0, 0) } else if k == 1 { (1, 0, 0) } else if k == 2 { (1, 0, 1) } else { (0, 0, 1) }
    } else if f == 4 {
        if k == 0 { (1, 0, 1) } else if k == 1 { (1, 1, 1) } else if k == 2 { (0, 1, 1) } else { (0, 0, 1) }
    } else {
        if k == 0 { (0, 0, 0) } else if k == 1 { (0, 1, 0) } else if k == 2 { (1, 1, 0) } else { (1, 0, 0) }
    }
}

/// The two axes that span face `f`, in the order its occlusion probes use.
pub open spec fn tangent_axes(f: int) -> (int, int) {
    if f == 0 || f == 1 {
        (1, 2)
    } else if f == 2 || f == 3 {
        (2, 0)
    } else {
        (0, 1)
    }
}

/// Probe `j` of corner `k` of face `f`, relative to the cell: the cells in
/// front of the face that touch the corner. Probes 0 and 1 share an edge with
/// the face's neighbor cell, along the first and second tangent axis; probe 2
/// is the diagonal one.
pub open spec fn probe_offset(f: int, k: int, j: int) -> Int3 {
    let n = face_offset(f);
    let c = face_corner(f, k);
    let (u, v) = tangent_axes(f);
    let du = along(u, 2 * component(c, u) - 1);
    let dv = along(v, 2 * component(c, v) - 1);
    if j == 0 {
        add3(n, du)
    } else if j == 1 {
        add3(n, dv)
    } else {
        add3(add3(n, du), dv)
    }
}

/// Whether a face of `current` that borders `neighbor` is visible.
pub open spec fn face_shown(current: Block, neighbor: Block) -> bool {
    if current == Block::Air {
        false
    } else if current == Block::Water {
        neighbor == Block::Air
    } else {
        neighbor == Block::Air || neighbor == Block::Water
    }
}

/// Occlusion level of a corner from its two edge probes and its diagonal
/// probe: 0 is fully occluded, 3 fully open.
pub open spec fn ao_level(side1: bool, side2: bool, corner: bool) -> int {
    if side1 && side2 {
        0
    } else {
        3 - ((if side1 { 1int } else { 0 }) + (if side2 { 1int } else { 0 }) + (if corner { 1int } else { 0 }))
    }
}

/// The block at a cell given relative to chunk `c`'s own cells; everything
/// outside the chunk counts as air.
pub open spec fn local_block(c: Chunk, x: int, y: int, z: int) -> Block {
    if in_bounds(x, y, z) {
        c.block_at(x, y, z)
    } else {
        Block::Air
    }
}

/// World x of local x in chunk `c`.
pub open spec fn world_x(c: Chunk, x: int) -> int {
    c.cx * CHUNK_SIZE + x
}

/// World z of local z in chunk `c`.
pub open spec fn world_z(c: Chunk, z: int) -> int {
    c.cz * CHUNK_SIZE + z
}

/// The block of chunk `c` at world coordinates; air outside the chunk.
pub open spec fn world_block(c: Chunk, wx: int, wy: int, wz: int) -> Block {
    local_block(c, wx - c.cx * CHUNK_SIZE, wy, wz - c.cz * CHUNK_SIZE)
}

/// Whether the cell at local `p` of chunk `c` occludes light.
pub open spec fn solid_at(c: Chunk, p: Int3) -> bool {
    local_block(c, p.0, p.1, p.2).solid()
}

/// Whether face `f` of local cell `(x, y, z)` of chunk `c` is emitted.
pub open spec fn face_visible(c: Chunk, x: int, y: int, z: int, f: int) -> bool {
    let n = add3((x, y, z), face_offset(f));
    face_shown(c.block_at(x, y, z), local_block(c, n.0, n.1, n.2))
}

/// Occlusion level of corner `k` of face `f` of local cell `(x, y, z)`.
pub open spec fn corner_ao(c: Chunk, x: int, y: int, z: int, f: int, k: int) -> int {
    let p = (x, y, z);
    ao_level(
        solid_at(c, add3(p, probe_offset(f, k, 0))),
        solid_at(c, add3(p, probe_offset(f, k, 1))),
        solid_at(c, add3(p, probe_offset(f, k, 2))),
    )
}

/// Whether a face of `current` that borders `neighbor` is drawn: air never,
/// water only against air, any other block against air or water.
pub fn should_render_face(current: Block, neighbor: Block) -> (r: bool)
    ensures
        r == face_shown(current, neighbor),
{
    if current == Block::Air {
        return false;
    }
    if current == Block::Water {
        return neighbor == Block::Air;
    }
    neighbor == Block::Air || neighbor == Block::Water
}

/// Occlusion level of a corner (0 darkest, 3 brightest). Two solid edge
/// probes give 0 whatever the diagonal; three open probes give 3.
pub fn compute_ao(side1: bool, side2: bool, corner: bool) -> (r: u8)
    ensures
        r as int == ao_level(side1, side2, corner),
        r <= 3,
        side1 && side2 && corner ==> r == 0,
        !side1 && !side2 && !corner ==> r == 3,
{
    if side1 && side2 {
        return 0;
    }
    3 - ((side1 as u8) + (side2 as u8) + (corner as u8))
}

/// Offset to the neighbor across face `f`.
fn face_offset_of(f: usize) -> (r: (i64, i64, i64))
    requires
        f < FACE_COUNT,
    ensures
        int3(r) == face_offset(f as int),
{
    match f {
        0 => (1, 0, 0),
        1 => (-1, 0, 0),
        2 => (0, 1, 0),
        3 => (0, -1, 0),
        4 => (0, 0, 1),
        _ => (0, 0, -1),
    }
}

/// Corner `k` of face `f`.
fn face_corner_of(f: usize, k: usize) -> (r: (i64, i64, i64))
    requires
        f < FACE_COUNT,
        k < 4,
    ensures
        int3(r) == face_corner(f as int, k as int),
{
    match (f, k) {
        (0, 0) => (1, 0, 0),
        (0, 1) => (1, 1, 0),
        (0, 2) => (1, 1, 1),
        (0, _) => (1, 0, 1),
        (1, 0) => (0, 0, 1),
        (1, 1) => (0, 1, 1),
        (1, 2) => (0, 1, 0),
        (1, _) => (0, 0, 0),
        (2, 0) => (0, 1, 1),
        (2, 1) => (1, 1, 1),
        (2, 2) => (1, 1, 0),
        (2, _) => (0, 1, 0),
        (3, 0) => (0, 0, 0),
        (3, 1) => (1, 0, 0),
        (3, 2) => (1, 0, 1),
        (3, _) => (0, 0, 1),
        (4, 0) => (1, 0, 1),
        (4, 1) => (1, 1, 1),
        (4, 2) => (0, 1, 1),
        (4, _) => (0, 0, 1),
        (_, 0) => (0, 0, 0),
        (_, 1) => (0, 1, 0),
        (_, 2) => (1, 1, 0),
        (_, _) => (1, 0, 0),
    }
}

/// The three occlusion probes of corner `k` of face `f`.
fn ao_probes_of(f: usize, k: usize) -> (r: ((i64, i64, i64), (i64, i64, i64), (i64, i64, i64)))
    requires
        f < FACE_COUNT,
        k < 4,
    ensures
        int3(r.0) == probe_offset(f as int, k as int, 0),
        int3(r.1) == probe_offset(f as int, k as int, 1),
        int3(r.2) == probe_offset(f as int, k as int, 2),
{
    match (f, k) {
        (0, 0) => ((1, -1, 0), (1, 0, -1), (1, -1, -1)),
        (0, 1) => ((1, 1, 0), (1, 0, -1), (1, 1, -1)),
        (0, 2) => ((1, 1, 0), (1, 0, 1), (1, 1, 1)),
        (0, _) => ((1, -1, 0), (1, 0, 1), (1, -1, 1)),
        (1, 0) => ((-1, -1, 0), (-1, 0, 1), (-1, -1, 1)),
        (1, 1) => ((-1, 1, 0), (-1, 0, 1), (-1, 1, 1)),
        (1, 2) => ((-1, 1, 0), (-1, 0, -1), (-1, 1, -1)),
        (1, _) => ((-1, -1, 0), (-1, 0, -1), (-1, -1, -1)),
        (2, 0) => ((0, 1, 1), (-1, 1, 0), (-1, 1, 1)),
        (2, 1) => ((0, 1, 1), (1, 1, 0), (1, 1, 1)),
        (2, 2) => ((0, 1, -1), (1, 1, 0), (1, 1, -1)),
        (2, _) => ((0, 1, -1), (-1, 1, 0), (-1, 1, -1)),
        (3, 0) => ((0, -1, -1), (-1, -1, 0), (-1, -1, -1)),
        (3, 1) => ((0, -1, -1), (1, -1, 0), (1, -1, -1)),
        (3, 2) => ((0, -1, 1), (1, -1, 0), (1, -1, 1)),
        (3, _) => ((0, -1, 1), (-1, -1, 0), (-1, -1, 1)),
        (4, 0) => ((1, 0, 1), (0, -1, 1), (1, -1, 1)),
        (4, 1) => ((1, 0, 1), (0, 1, 1), (1, 1, 1)),
        (4, 2) => ((-1, 0, 1), (0, 1, 1), (-1, 1, 1)),
        (4, _) => ((-1, 0, 1), (0, -1, 1), (-1, -1, 1)),
        (_, 0) => ((-1, 0, -1), (0, -1, -1), (-1, -1, -1)),
        (_, 1) => ((-1, 0, -1), (0, 1, -1), (-1, 1, -1)),
        (_, 2) => ((1, 0, -1), (0, 1, -1), (1, 1, -1)),
        (_, _) => ((1, 0, -1), (0, -1, -1), (1, -1, -1)),
    }
}

/// The block at world coordinates `(wx, wy, wz)`, as seen from `chunk`:
/// cells outside the chunk, below the floor or at and above the world
/// height are air.
pub fn get_block_world(chunk: &Chunk, wx: i64, wy: i64, wz: i64) -> (r: Block)
    requires
        chunk.wf(),
    ensures
        r == world_block(*chunk, wx as int, wy as int, wz as int),
{
    if wy < 0 || wy >= WORLD_HEIGHT as i64 {
        return Block::Air;
    }
    let base_x = chunk.cx as i64 * CHUNK_SIZE as i64;
    let base_z = chunk.cz as i64 * CHUNK_SIZE as i64;
    if wx < base_x || wx >= base_x + CHUNK_SIZE as i64 || wz < base_z || wz >= base_z
        + CHUNK_SIZE as i64 {
        return Block::Air;
    }
    match chunk.get((wx - base_x) as usize, wy as usize, (wz - base_z) as usize) {
        Ok(b) => b,
        Err(_) => Block::Air,
    }
}

/// Whether the block at world coordinates `(wx, wy, wz)` occludes light.
pub fn is_solid_at(chunk: &Chunk, wx: i64, wy: i64, wz: i64) -> (r: bool)
    requires
        chunk.wf(),
    ensures
        r == world_block(*chunk, wx as int, wy as int, wz as int).solid(),
{
    get_block_world(chunk, wx, wy, wz).is_solid()
}

/// One corner of an emitted face. Color and normal are left to the renderer,
/// which derives them from `face`, `block`, `block_y` and `ao`.
#[derive(Copy, Clone, Debug, PartialEq, Eq, Structural)]
pub struct MeshVertex {
    /// World-space x of the corner.
    pub x: i64,
    /// World-space y of the corner.
    pub y: i64,
    /// World-space z of the corner.
    pub z: i64,
    /// The face this corner belongs to (`FACE_EAST` .. `FACE_NORTH`).
    pub face: usize,
    /// The block type of the voxel the face belongs to.
    pub block: Block,
    /// The height of that voxel, which sets the altitude tint.
    pub block_y: usize,
    /// The corner's occlusion level, 0 (darkest) to 3 (open).
    pub ao: u8,
}

/// An emitted face: local cell `(x, y, z)` and face number.
pub type FaceRef = (int, int, int, int);

/// Local coordinates of the cell with linear index `i`.
pub open spec fn cell_coords(i: int) -> Int3 {
    (i % (CHUNK_SIZE as int), i / (CHUNK_COLUMNS as int), (i / (CHUNK_SIZE as int)) % (CHUNK_SIZE as int))
}

/// The visible faces among the first `k` faces of the cell with linear
/// index `i`, in face order.
pub open spec fn cell_faces(c: Chunk, i: int, k: nat) -> Seq<FaceRef>
    decreases k,
{
    if k == 0 {
        Seq::empty()
    } else {
        let prev = cell_faces(c, i, (k - 1) as nat);
        let p = cell_coords(i);
        if face_visible(c, p.0, p.1, p.2, k - 1) {
            prev.push((p.0, p.1, p.2, k - 1))
        } else {
            prev
        }
    }
}

/// The visible faces of the first `n` cells, cell by cell in linear order.
pub open spec fn faces_upto(c: Chunk, n: nat) -> Seq<FaceRef>
    decreases n,
{
    if n == 0 {
        Seq::empty()
    } else {
        faces_upto(c, (n - 1) as nat) + cell_faces(c, n - 1, FACE_COUNT as nat)
    }
}

/// All faces that chunk `c` emits, in mesh order.
pub open spec fn emitted_faces(c: Chunk) -> Seq<FaceRef> {
    faces_upto(c, CHUNK_CELLS as nat)
}

/// Corner `k` of the emitted face `t` of chunk `c`.
pub open spec fn corner_vertex(c: Chunk, t: FaceRef, k: int) -> MeshVertex {
    let p = face_corner(t.3, k);
    MeshVertex {
        x: (world_x(c, t.0) + p.0) as i64,
        y: (t.1 + p.1) as i64,
        z: (world_z(c, t.2) + p.2) as i64,
        face: t.3 as usize,
        block: c.block_at(t.0, t.1, t.2),
        block_y: t.1 as usize,
        ao: corner_ao(c, t.0, t.1, t.2, t.3, k) as u8,
    }
}

/// The four vertices of face `t`, in winding order.
pub open spec fn quad_vertices(c: Chunk, t: FaceRef) -> Seq<MeshVertex> {
    seq![corner_vertex(c, t, 0), corner_vertex(c, t, 1), corner_vertex(c, t, 2), corner_vertex(c, t, 3)]
}

/// Whether face `t` is split along the diagonal from corner 0 to corner 2:
/// the diagonal whose two corners have the higher summed occlusion level.
pub open spec fn split_on_02(c: Chunk, t: FaceRef) -> bool {
    corner_ao(c, t.0, t.1, t.2, t.3, 0) + corner_ao(c, t.0, t.1, t.2, t.3, 2) > corner_ao(
        c,
        t.0,
        t.1,
        t.2,
        t.3,
        1,
    ) + corner_ao(c, t.0, t.1, t.2, t.3, 3)
}

/// The two triangles of face `t` whose first vertex is at `base`.
pub open spec fn quad_indices(c: Chunk, t: FaceRef, base: int) -> Seq<u32> {
    if split_on_02(c, t) {
        seq![base as u32, (base + 1) as u32, (base + 2) as u32, base as u32, (base + 2) as u32, (base + 3) as u32]
    } else {
        seq![(base + 1) as u32, (base + 2) as u32, (base + 3) as u32, (base + 1) as u32, (base + 3) as u32, base as u32]
    }
}

/// The vertex list of faces `q`: four per face, face after face.
pub open spec fn mesh_vertices(c: Chunk, q: Seq<FaceRef>) -> Seq<MeshVertex>
    decreases q.len(),
{
    if q.len() == 0 {
        Seq::empty()
    } else {
        mesh_vertices(c, q.drop_last()) + quad_vertices(c, q.last())
    }
}

/// The index list of faces `q`: six per face, face after face, each face
/// referring to its own four vertices.
pub open spec fn mesh_indices(c: Chunk, q: Seq<FaceRef>) -> Seq<u32>
    decreases q.len(),
{
    if q.len() == 0 {
        Seq::empty()
    } else {
        mesh_indices(c, q.drop_last()) + quad_indices(c, q.last(), 4 * (q.len() - 1))
    }
}

/// `r` is the mesh of chunk `c`: none where `c` emits no face, else the
/// vertex and index lists of its emitted faces.
pub open spec fn is_mesh_of(c: Chunk, r: Option<(Vec<MeshVertex>, Vec<u32>)>) -> bool {
    match r {
        None => emitted_faces(c).len() == 0,
        Some(m) => {
            &&& emitted_faces(c).len() > 0
            &&& m.0@ == mesh_vertices(c, emitted_faces(c))
            &&& m.1@ == mesh_indices(c, emitted_faces(c))
        },
    }
}

proof fn lemma_mesh_push(c: Chunk, q: Seq<FaceRef>, t: FaceRef)
    ensures
        mesh_vertices(c, q.push(t)) == mesh_vertices(c, q) + quad_vertices(c, t),
        mesh_indices(c, q.push(t)) == mesh_indices(c, q) + quad_indices(c, t, 4 * q.len() as int),
{
    assert(q.push(t).drop_last() =~= q);
}

proof fn lemma_air_cell_has_no_faces(c: Chunk, i: int, k: nat)
    requires
        ({
            let p = cell_coords(i);
            c.block_at(p.0, p.1, p.2) == Block::Air
        }),
    ensures
        cell_faces(c, i, k) == Seq::<FaceRef>::empty(),
    decreases k,
{
    if k > 0 {
        lemma_air_cell_has_no_faces(c, i, (k - 1) as nat);
    }
}

/// The block at local cell `(x, y, z)`, which lies in the chunk.
fn block_in(chunk: &Chunk, x: usize, y: usize, z: usize) -> (r: Block)
    requires
        chunk.wf(),
        in_bounds(x as int, y as int, z as int),
    ensures
        r == chunk.block_at(x as int, y as int, z as int),
{
    match chunk.get(x, y, z) {
        Ok(b) => b,
        Err(_) => Block::Air,
    }
}

/// Occlusion level of corner `k` of face `f` of local cell `(x, y, z)`.
fn corner_ao_of(chunk: &Chunk, x: usize, y: usize, z: usize, f: usize, k: usize) -> (r: u8)
    requires
        chunk.wf(),
        in_bounds(x as int, y as int, z as int),
        f < FACE_COUNT,
        k < 4,
    ensures
        r as int == corner_ao(*chunk, x as int, y as int, z as int, f as int, k as int),
{
    let wx = chunk.cx as i64 * CHUNK_SIZE as i64 + x as i64;
    let wy = y as i64;
    let wz = chunk.cz as i64 * CHUNK_SIZE as i64 + z as i64;
    let (p0, p1, p2) = ao_probes_of(f, k);
    let s1 = is_solid_at(chunk, wx + p0.0, wy + p0.1, wz + p0.2);
    let s2 = is_solid_at(chunk, wx + p1.0, wy + p1.1, wz + p1.2);
    let cr = is_solid_at(chunk, wx + p2.0, wy + p2.1, wz + p2.2);
    compute_ao(s1, s2, cr)
}

/// Appends face `f` of local cell `(x, y, z)`: its four vertices and its two
/// triangles.
fn emit_face(
    chunk: &Chunk,
    x: usize,
    y: usize,
    z: usize,
    f: usize,
    vertices: &mut Vec<MeshVertex>,
    indices: &mut Vec<u32>,
)
    requires
        chunk.wf(),
        in_bounds(x as int, y as int, z as int),
        f < FACE_COUNT,
        old(vertices)@.len() + 4 <= u32::MAX,
    ensures
        final(vertices)@ == old(vertices)@ + quad_vertices(*chunk, (x as int, y as int, z as int, f as int)),
        final(indices)@ == old(indices)@ + quad_indices(
            *chunk,
            (x as int, y as int, z as int, f as int),
            old(vertices)@.len() as int,
        ),
{
    let ghost t: FaceRef = (x as int, y as int, z as int, f as int);
    let block = block_in(chunk, x, y, z);
    let wx = chunk.cx as i64 * CHUNK_SIZE as i64 + x as i64;
    let wz = chunk.cz as i64 * CHUNK_SIZE as i64 + z as i64;
    let a0 = corner_ao_of(chunk, x, y, z, f, 0);
    let a1 = corner_ao_of(chunk, x, y, z, f, 1);
    let a2 = corner_ao_of(chunk, x, y, z, f, 2);
    let a3 = corner_ao_of(chunk, x, y, z, f, 3);
    let base_idx = vertices.len() as u32;
    let mut k: usize = 0;
    while k < 4
        invariant
            k <= 4,
            vertices@.len() == old(vertices)@.len() + k,
            forall|j: int| 0 <= j < old(vertices)@.len() ==> vertices@[j] == old(vertices)@[j],
            forall|j: int| 0 <= j < k ==> vertices@[old(vertices)@.len() + j] == #[trigger] corner_vertex(*chunk, t, j),
            chunk.wf(),
            in_bounds(x as int, y as int, z as int),
            f < FACE_COUNT,
            t == (x as int, y as int, z as int, f as int),
            block == chunk.block_at(x as int, y as int, z as int),
            wx == world_x(*chunk, x as int),
            wz == world_z(*chunk, z as int),
            a0 as int == corner_ao(*chunk, x as int, y as int, z as int, f as int, 0),
            a1 as int == corner_ao(*chunk, x as int, y as int, z as int, f as int, 1),
            a2 as int == corner_ao(*chunk, x as int, y as int, z as int, f as int, 2),
            a3 as int == corner_ao(*chunk, x as int, y as int, z as int, f as int, 3),
        decreases 4 - k,
    {
        let corner = face_corner_of(f, k);
        let ao = if k == 0 { a0 } else if k == 1 { a1 } else if k == 2 { a2 } else { a3 };
        vertices.push(MeshVertex {
            x: wx + corner.0,
            y: y as i64 + corner.1,
            z: wz + corner.2,
            face: f,
            block,
            block_y: y,
            ao,
        });
        k = k + 1;
    }
    assert(vertices@ =~= old(vertices)@ + quad_vertices(*chunk, t));
    if a0 + a2 > a1 + a3 {
        indices.push(base_idx);
        indices.push(base_idx + 1);
        indices.push(base_idx + 2);
        indices.push(base_idx);
        indices.push(base_idx + 2);
        indices.push(base_idx + 3);
    } else {
        indices.push(base_idx + 1);
        indices.push(base_idx + 2);
        indices.push(base_idx + 3);
        indices.push(base_idx + 1);
        indices.push(base_idx + 3);
        indices.push(base_idx);
    }
    assert(indices@ =~= old(indices)@ + quad_indices(*chunk, t, old(vertices)@.len() as int));
}

/// Appends face `f` of the cell with linear index `i` (local `(x, y, z)`,
/// holding `block`) where it is visible, to the mesh of faces `q`.
#[verifier::rlimit(30)]
fn mesh_face(
    chunk: &Chunk,
    i: usize,
    x: usize,
    y: usize,
    z: usize,
    f: usize,
    block: Block,
    vertices: &mut Vec<MeshVertex>,
    indices: &mut Vec<u32>,
    Ghost(q): Ghost<Seq<FaceRef>>,
)
    requires
        chunk.wf(),
        i < CHUNK_CELLS,
        f < FACE_COUNT,
        cell_coords(i as int) == (x as int, y as int, z as int),
        in_bounds(x as int, y as int, z as int),
        block == chunk.block_at(x as int, y as int, z as int),
        q.len() <= FACE_COUNT * i + f,
        old(vertices)@ == mesh_vertices(*chunk, q),
        old(indices)@ == mesh_indices(*chunk, q),
        old(vertices)@.len() == 4 * q.len(),
        old(indices)@.len() == 6 * q.len(),
    ensures
        ({
            let t: FaceRef = (x as int, y as int, z as int, f as int);
            let q2 = if face_visible(*chunk, x as int, y as int, z as int, f as int) {
                q.push(t)
            } else {
                q
            };
            &&& final(vertices)@ == mesh_vertices(*chunk, q2)
            &&& final(indices)@ == mesh_indices(*chunk, q2)
            &&& final(vertices)@.len() == 4 * q2.len()
            &&& final(indices)@.len() == 6 * q2.len()
        }),
{
    let (dx, dy, dz) = face_offset_of(f);
    let wx = chunk.cx as i64 * CHUNK_SIZE as i64 + x as i64;
    let wz = chunk.cz as i64 * CHUNK_SIZE as i64 + z as i64;
    let neighbor = get_block_world(chunk, wx + dx, y as i64 + dy, wz + dz);
    assert(neighbor == local_block(*chunk, x + dx, y + dy, z + dz));
    let shown = should_render_face(block, neighbor);
    assert(shown == face_visible(*chunk, x as int, y as int, z as int, f as int));
    if shown {
        emit_face(chunk, x, y, z, f, vertices, indices);
        proof {
            lemma_mesh_push(*chunk, q, (x as int, y as int, z as int, f as int));
        }
    }
}

/// Builds meshes from chunks.
pub struct VoxelMesher;

impl VoxelMesher {
    /// Builds the vertex and index lists of `chunk`: for each cell in linear
    /// order and each face in face order, the visible faces, four vertices
    /// and two triangles each. `None` where no face is visible.
    pub fn build(chunk: &Chunk) -> (r: Option<(Vec<MeshVertex>, Vec<u32>)>)
        requires
            chunk.wf(),
        ensures
            is_mesh_of(*chunk, r),
            r matches Some(m) ==> m.0@.len() == 4 * emitted_faces(*chunk).len() && m.1@.len() == 6
                * emitted_faces(*chunk).len(),
    {
        let mut vertices: Vec<MeshVertex> = Vec::new();
        let mut indices: Vec<u32> = Vec::new();
        let mut i: usize = 0;
        while i < CHUNK_CELLS
            invariant
                chunk.wf(),
                i <= CHUNK_CELLS,
                faces_upto(*chunk, i as nat).len() <= FACE_COUNT * i,
                vertices@ == mesh_vertices(*chunk, faces_upto(*chunk, i as nat)),
                indices@ == mesh_indices(*chunk, faces_upto(*chunk, i as nat)),
                vertices@.len() == 4 * faces_upto(*chunk, i as nat).len(),
                indices@.len() == 6 * faces_upto(*chunk, i as nat).len(),
            decreases CHUNK_CELLS - i,
        {
            let x = i % CHUNK_SIZE;
            let z = (i / CHUNK_SIZE) % CHUNK_SIZE;
            let y = i / CHUNK_COLUMNS;
            let ghost before = faces_upto(*chunk, i as nat);
            assert(cell_coords(i as int) == (x as int, y as int, z as int));
            let block = block_in(chunk, x, y, z);
            if block == Block::Air {
                proof {
                    lemma_air_cell_has_no_faces(*chunk, i as int, FACE_COUNT as nat);
                    assert(faces_upto(*chunk, (i + 1) as nat) =~= before);
                }
            } else {
                let mut f: usize = 0;
                while f < FACE_COUNT
                    invariant
                        chunk.wf(),
                        i < CHUNK_CELLS,
                        f <= FACE_COUNT,
                        cell_coords(i as int) == (x as int, y as int, z as int),
                        in_bounds(x as int, y as int, z as int),
                        block == chunk.block_at(x as int, y as int, z as int),
                        before == faces_upto(*chunk, i as nat),
                        before.len() <= FACE_COUNT * i,
                        cell_faces(*chunk, i as int, f as nat).len() <= f,
                        vertices@ == mesh_vertices(*chunk, before + cell_faces(*chunk, i as int, f as nat)),
                        indices@ == mesh_indices(*chunk, before + cell_faces(*chunk, i as int, f as nat)),
                        vertices@.len() == 4 * (before + cell_faces(*chunk, i as int, f as nat)).len(),
                        indices@.len() == 6 * (before + cell_faces(*chunk, i as int, f as nat)).len(),
                    decreases FACE_COUNT - f,
                {
                    let ghost prev = cell_faces(*chunk, i as int, f as nat);
                    mesh_face(chunk, i, x, y, z, f, block, &mut vertices, &mut indices, Ghost(before + prev));
                    proof {
                        let t: FaceRef = (x as int, y as int, z as int, f as int);
                        assert((before + prev).push(t) =~= before + prev.push(t));
                    }
                    f = f + 1;
                }
            }
            i = i + 1;
        }
        if indices.len() == 0 {
            None
        } else {
            Some((vertices, indices))
        }
    }
}

proof fn lemma_cell_coords(i: int)
    requires
        0 <= i < CHUNK_CELLS,
    ensures
        in_bounds(cell_coords(i).0, cell_coords(i).1, cell_coords(i).2),
        cell_index(cell_coords(i).0, cell_coords(i).1, cell_coords(i).2) == i,
{
    let x = i % 16;
    let y = i / 256;
    let z = (i / 16) % 16;
    assert(0 <= x < 16 && 0 <= z < 16 && 0 <= y < 128 && x + 16 * (z + 16 * y) == i) by (nonlinear_arith)
        requires
            0 <= i < 32768,
            x == i % 16,
            y == i / 256,
            z == (i / 16) % 16,
    ;
}

proof fn lemma_cell_index(x: int, y: int, z: int)
    requires
        in_bounds(x, y, z),
    ensures
        0 <= cell_index(x, y, z) < CHUNK_CELLS,
        cell_coords(cell_index(x, y, z)) == (x, y, z),
{
    let i = x + 16 * (z + 16 * y);
    assert(0 <= i < 32768 && i % 16 == x && i / 256 == y && (i / 16) % 16 == z) by (nonlinear_arith)
        requires
            0 <= x < 16,
            0 <= y < 128,
            0 <= z < 16,
            i == x + 16 * (z + 16 * y),
    ;
}

proof fn lemma_cell_faces_contains(c: Chunk, i: int, k: nat, t: FaceRef)
    requires
        k <= FACE_COUNT,
    ensures
        cell_faces(c, i, k).contains(t) <==> ((t.0, t.1, t.2) == cell_coords(i) && 0 <= t.3 < k
            && face_visible(c, t.0, t.1, t.2, t.3)),
    decreases k,
{
    if k > 0 {
        let prev = cell_faces(c, i, (k - 1) as nat);
        let p = cell_coords(i);
        lemma_cell_faces_contains(c, i, (k - 1) as nat, t);
        if face_visible(c, p.0, p.1, p.2, k - 1) {
            let u: FaceRef = (p.0, p.1, p.2, k - 1);
            if prev.contains(t) {
                let j = choose|j: int| 0 <= j < prev.len() && prev[j] == t;
                assert(prev.push(u)[j] == t);
            }
            if t == u {
                assert(prev.push(u)[prev.len() as int] == t);
            }
            if prev.push(u).contains(t) {
                let j = choose|j: int| 0 <= j < prev.push(u).len() && prev.push(u)[j] == t;
                if j < prev.len() {
                    assert(prev[j] == t);
                }
            }
        }
    }
}

proof fn lemma_faces_upto_contains(c: Chunk, n: nat, t: FaceRef)
    requires
        n <= CHUNK_CELLS,
        in_bounds(t.0, t.1, t.2),
    ensures
        faces_upto(c, n).contains(t) <==> (cell_index(t.0, t.1, t.2) < n && 0 <= t.3 < FACE_COUNT
            && face_visible(c, t.0, t.1, t.2, t.3)),
    decreases n,
{
    lemma_cell_index(t.0, t.1, t.2);
    if n > 0 {
        let a = faces_upto(c, (n - 1) as nat);
        let b = cell_faces(c, n - 1, FACE_COUNT as nat);
        lemma_faces_upto_contains(c, (n - 1) as nat, t);
        lemma_cell_faces_contains(c, n - 1, FACE_COUNT as nat, t);
        lemma_cell_coords(n - 1);
        if a.contains(t) {
            let j = choose|j: int| 0 <= j < a.len() && a[j] == t;
            assert((a + b)[j] == t);
        }
        if b.contains(t) {
            let j = choose|j: int| 0 <= j < b.len() && b[j] == t;
            assert((a + b)[a.len() + j] == t);
        }
        if (a + b).contains(t) {
            let j = choose|j: int| 0 <= j < (a + b).len() && (a + b)[j] == t;
            if j < a.len() {
                assert(a[j] == t);
            } else {
                assert(b[j - a.len()] == t);
            }
        }
    }
}

/// Face culling: face `f` of local cell `(x, y, z)` is among the faces that
/// chunk `c` emits if and only if the visibility rule holds for the cell's
/// block and the block across that face (air outside the chunk). Air cells
/// emit nothing; water shows only against air; other blocks show against air
/// or water.
pub proof fn lemma_face_emitted_iff_visible(c: Chunk, x: int, y: int, z: int, f: int)
    requires
        in_bounds(x, y, z),
        0 <= f < FACE_COUNT,
    ensures
        emitted_faces(c).contains((x, y, z, f)) <==> face_shown(
            c.block_at(x, y, z),
            local_block(c, x + face_offset(f).0, y + face_offset(f).1, z + face_offset(f).2),
        ),
{
    lemma_faces_upto_contains(c, CHUNK_CELLS as nat, (x, y, z, f));
    lemma_cell_index(x, y, z);
}

/// Mesh sizes: the mesh of any face list has four vertices and six indices
/// per face.
pub proof fn lemma_mesh_sizes(c: Chunk, q: Seq<FaceRef>)
    ensures
        mesh_vertices(c, q).len() == 4 * q.len(),
        mesh_indices(c, q).len() == 6 * q.len(),
    decreases q.len(),
{
    if q.len() > 0 {
        lemma_mesh_sizes(c, q.drop_last());
    }
}

/// Meshing is a function of the chunk: two meshes of one chunk are both
/// absent, or hold the same vertex and index lists.
pub proof fn lemma_mesh_deterministic(
    c: Chunk,
    r1: Option<(Vec<MeshVertex>, Vec<u32>)>,
    r2: Option<(Vec<MeshVertex>, Vec<u32>)>,
)
    requires
        is_mesh_of(c, r1),
        is_mesh_of(c, r2),
    ensures
        r1 is None <==> r2 is None,
        r1 is Some ==> r1.unwrap().0@ == r2.unwrap().0@ && r1.unwrap().1@ == r2.unwrap().1@,
{
}

/// Corner occlusion extremes: a corner whose three probe cells are all solid
/// has level 0; one whose probe cells are all open has level 3.
pub proof fn lemma_corner_ao_extremes(c: Chunk, x: int, y: int, z: int, f: int, k: int)
    ensures
        ({
            let p = (x, y, z);
            let s0 = solid_at(c, add3(p, probe_offset(f, k, 0)));
            let s1 = solid_at(c, add3(p, probe_offset(f, k, 1)));
            let s2 = solid_at(c, add3(p, probe_offset(f, k, 2)));
            &&& (s0 && s1 && s2 ==> corner_ao(c, x, y, z, f, k) == 0)
            &&& (!s0 && !s1 && !s2 ==> corner_ao(c, x, y, z, f, k) == 3)
        }),
{
}

} // verus!
