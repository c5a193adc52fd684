//! Surface meshing: the triangle mesh of the visible faces of a chunk's
//! blocks, in chunk-local space, with per-face culling against neighbours
//! that may lie in adjacent chunks.
use vstd::prelude::*;

use crate::block::{atlas_tile, face_at, face_in_order, is_opaque, opaque, tile_of, AtlasTile, Block, Face};
use crate::coords::{
    chunk_in_world, global_coord, lemma_index_local, local_at_index, local_in_range,
    to_global, BlockPos, ChunkPos, LocalPos, CHUNK_VOLUME,
};
use crate::world::WorldMap;

verus! {

/// An integer point or direction in chunk-local space.
#[derive(Clone, Copy, Debug, PartialEq, Eq, Structural)]
pub struct Point3 {
    pub x: i32,
    pub y: i32,
    pub z: i32,
}

/// A texture coordinate, in atlas tiles: `(u, v) / ATLAS_TILES` in `[0, 1]`.
#[derive(Clone, Copy, Debug, PartialEq, Eq, Structural)]
pub struct Uv {
    pub u: u32,
    pub v: u32,
}

/// A triangle-list mesh. Vertex `i` has `positions[i]`, `normals[i]` and
/// `uvs[i]`; every three entries of `indices` make a triangle.
pub struct Mesh {
    pub positions: Vec<Point3>,
    pub normals: Vec<Point3>,
    pub uvs: Vec<Uv>,
    pub indices: Vec<u32>,
}

/// A face the mesher emits: a face of the block of a given kind at a cell.
#[derive(Clone, Copy, Debug, PartialEq, Eq, Structural)]
pub struct Quad {
    pub cell: LocalPos,
    pub face: Face,
    pub kind: Block,
}

/// The outward normal of a face.
pub open spec fn normal_of(f: Face) -> Point3 {
    match f {
        Face::PosZ => Point3 { x: 0, y: 0, z: 1 },
        Face::PosX => Point3 { x: 1, y: 0, z: 0 },
        Face::NegZ => Point3 { x: 0, y: 0, z: -1i32 },
        Face::NegX => Point3 { x: -1i32, y: 0, z: 0 },
        Face::PosY => Point3 { x: 0, y: 1, z: 0 },
        Face::NegY => Point3 { x: 0, y: -1i32, z: 0 },
    }
}

/// Corner `i` (0 to 3) of a face of the unit cube, counter-clockwise seen
/// from outside.
pub open spec fn corner_of(f: Face, i: int) -> Point3 {
    match f {
        Face::PosZ => if i == 0 {
            Point3 { x: 0, y: 0, z: 1 }
        } else if i == 1 {
            Point3 { x: 1, y: 0, z: 1 }
        } else if i == 2 {
            Point3 { x: 1, y: 1, z: 1 }
        } else {
            Point3 { x: 0, y: 1, z: 1 }
        },
        Face::PosX => if i == 0 {
            Point3 { x: 1, y: 0, z: 1 }
        } else if i == 1 {
            Point3 { x: 1, y: 0, z: 0 }
        } else if i == 2 {
            Point3 { x: 1, y: 1, z: 0 }
        } else {
            Point3 { x: 1, y: 1, z: 1 }
        },
        Face::NegZ => if i == 0 {
            Point3 { x: 1, y: 0, z: 0 }
        } else if i == 1 {
            Point3 { x: 0, y: 0, z: 0 }
        } else if i == 2 {
            Point3 { x: 0, y: 1, z: 0 }
        } else {
            Point3 { x: 1, y: 1, z: 0 }
        },
        Face::NegX => if i == 0 {
            Point3 { x: 0, y: 0, z: 0 }
        } else if i == 1 {
            Point3 { x: 0, y: 0, z: 1 }
        } else if i == 2 {
            Point3 { x: 0, y: 1, z: 1 }
        } else {
            Point3 { x: 0, y: 1, z: 0 }
        },
        Face::PosY => if i == 0 {
            Point3 { x: 0, y: 1, z: 1 }
        } else if i == 1 {
            Point3 { x: 1, y: 1, z: 1 }
        } else if i == 2 {
            Point3 { x: 1, y: 1, z: 0 }
        } else {
            Point3 { x: 0, y: 1, z: 0 }
        },
        Face::NegY => if i == 0 {
            Point3 { x: 0, y: 0, z: 0 }
        } else if i == 1 {
            Point3 { x: 1, y: 0, z: 0 }
        } else if i == 2 {
            Point3 { x: 1, y: 0, z: 1 }
        } else {
            Point3 { x: 0, y: 0, z: 1 }
        },
    }
}

/// The texture coordinate of corner `i` of a face drawn with a given tile.
pub open spec fn uv_of(t: AtlasTile, i: int) -> Uv {
    if i == 0 {
        Uv { u: t.col, v: t.row }
    } else if i == 1 {
        Uv { u: (t.col + 1) as u32, v: t.row }
    } else if i == 2 {
        Uv { u: (t.col + 1) as u32, v: (t.row + 1) as u32 }
    } else {
        Uv { u: t.col, v: (t.row + 1) as u32 }
    }
}

/// Corner `i` of a quad, in chunk-local space.
pub open spec fn quad_corner(q: Quad, i: int) -> Point3 {
    let k = corner_of(q.face, i);
    Point3 { x: (q.cell.x + k.x) as i32, y: (q.cell.y + k.y) as i32, z: (q.cell.z + k.z) as i32 }
}

/// The block at integer global coordinates; air outside the `i32` range.
pub open spec fn block_in(blocks: Map<BlockPos, Block>, x: int, y: int, z: int) -> Option<Block> {
    let g = BlockPos { x: x as i32, y: y as i32, z: z as i32 };
    if i32::MIN <= x <= i32::MAX && i32::MIN <= y <= i32::MAX && i32::MIN <= z <= i32::MAX
        && blocks.contains_key(g) {
        Some(blocks[g])
    } else {
        None
    }
}

/// The block across face `f` of cell `l` of chunk `c`.
pub open spec fn neighbor_of(blocks: Map<BlockPos, Block>, c: ChunkPos, l: LocalPos, f: Face) -> Option<Block> {
    let g = global_coord(c, l);
    let n = normal_of(f);
    block_in(blocks, g.x + n.x, g.y + n.y, g.z + n.z)
}

/// Whether face `f` of cell `l` of chunk `c` is shown: the cell across it is
/// air or holds a block that is not opaque.
pub open spec fn face_shown(blocks: Map<BlockPos, Block>, c: ChunkPos, l: LocalPos, f: Face) -> bool {
    match neighbor_of(blocks, c, l, f) {
        None => true,
        Some(k) => !opaque(k),
    }
}

/// The shown faces among the first `d` faces, in emission order, of the
/// block of kind `kind` at cell `l` of chunk `c`.
pub open spec fn cell_quads(blocks: Map<BlockPos, Block>, c: ChunkPos, l: LocalPos, kind: Block, d: int) -> Seq<Quad>
    decreases d,
{
    if d <= 0 {
        Seq::empty()
    } else if face_shown(blocks, c, l, face_at(d - 1)) {
        cell_quads(blocks, c, l, kind, d - 1).push(Quad { cell: l, face: face_at(d - 1), kind })
    } else {
        cell_quads(blocks, c, l, kind, d - 1)
    }
}

/// The shown faces of the blocks of the first `n` cells of chunk `c`, cells
/// by increasing index (`x`, then `y`, then `z` varying fastest).
pub open spec fn chunk_quads(blocks: Map<BlockPos, Block>, c: ChunkPos, n: int) -> Seq<Quad>
    decreases n,
{
    if n <= 0 {
        Seq::empty()
    } else {
        let l = local_at_index(n - 1);
        let g = global_coord(c, l);
        if blocks.contains_key(g) {
            chunk_quads(blocks, c, n - 1) + cell_quads(blocks, c, l, blocks[g], 6)
        } else {
            chunk_quads(blocks, c, n - 1)
        }
    }
}

/// The faces the mesh of chunk `c` is made of, in emission order.
pub open spec fn mesh_quads(blocks: Map<BlockPos, Block>, c: ChunkPos) -> Seq<Quad> {
    chunk_quads(blocks, c, CHUNK_VOLUME as int)
}

/// The vertex positions of a sequence of quads, four per quad.
pub open spec fn positions_of(qs: Seq<Quad>) -> Seq<Point3>
    decreases qs.len(),
{
    if qs.len() == 0 {
        Seq::empty()
    } else {
        let q = qs.last();
        positions_of(qs.drop_last()) + seq![quad_corner(q, 0), quad_corner(q, 1), quad_corner(q, 2), quad_corner(q, 3)]
    }
}

/// The vertex normals of a sequence of quads, four per quad.
pub open spec fn normals_of(qs: Seq<Quad>) -> Seq<Point3>
    decreases qs.len(),
{
    if qs.len() == 0 {
        Seq::empty()
    } else {
        let n = normal_of(qs.last().face);
        normals_of(qs.drop_last()) + seq![n, n, n, n]
    }
}

/// The texture coordinates of a sequence of quads, four per quad, from the
/// atlas tile of each quad's block kind and face.
pub open spec fn uvs_of(qs: Seq<Quad>) -> Seq<Uv>
    decreases qs.len(),
{
    if qs.len() == 0 {
        Seq::empty()
    } else {
        let t = tile_of(qs.last().kind, qs.last().face);
        uvs_of(qs.drop_last()) + seq![uv_of(t, 0), uv_of(t, 1), uv_of(t, 2), uv_of(t, 3)]
    }
}

/// The indices of a sequence of quads: two triangles `(0, 1, 2)` and
/// `(0, 2, 3)` over the four vertices of each quad.
pub open spec fn indices_of(qs: Seq<Quad>) -> Seq<u32>
    decreases qs.len(),
{
    if qs.len() == 0 {
        Seq::empty()
    } else {
        let b = 4 * (qs.len() - 1);
        indices_of(qs.drop_last()) + seq![b as u32, (b + 1) as u32, (b + 2) as u32, b as u32, (b + 2) as u32, (b + 3) as u32]
    }
}

/// The mesh holds exactly the vertices and indices of the quads.
pub open spec fn mesh_of_quads(m: &Mesh, qs: Seq<Quad>) -> bool {
    &&& m.positions@ == positions_of(qs)
    &&& m.normals@ == normals_of(qs)
    &&& m.uvs@ == uvs_of(qs)
    &&& m.indices@ == indices_of(qs)
}

/// Each quad has four vertices and six indices.
pub proof fn lemma_buffer_lengths(qs: Seq<Quad>)
    ensures
        positions_of(qs).len() == 4 * qs.len(),
        normals_of(qs).len() == 4 * qs.len(),
        uvs_of(qs).len() == 4 * qs.len(),
        indices_of(qs).len() == 6 * qs.len(),
    decreases qs.len(),
{
    if qs.len() > 0 {
        lemma_buffer_lengths(qs.drop_last());
    }
}

proof fn lemma_quads_push(qs: Seq<Quad>, q: Quad)
    ensures
        positions_of(qs.push(q)) == positions_of(qs) + seq![quad_corner(q, 0), quad_corner(q, 1), quad_corner(q, 2), quad_corner(q, 3)],
        normals_of(qs.push(q)) == normals_of(qs) + seq![normal_of(q.face), normal_of(q.face), normal_of(q.face), normal_of(q.face)],
        uvs_of(qs.push(q)) == uvs_of(qs) + seq![
            uv_of(tile_of(q.kind, q.face), 0),
            uv_of(tile_of(q.kind, q.face), 1),
            uv_of(tile_of(q.kind, q.face), 2),
            uv_of(tile_of(q.kind, q.face), 3),
        ],
        indices_of(qs.push(q)) == indices_of(qs) + seq![
            (4 * qs.len()) as u32,
            (4 * qs.len() + 1) as u32,
            (4 * qs.len() + 2) as u32,
            (4 * qs.len()) as u32,
            (4 * qs.len() + 2) as u32,
            (4 * qs.len() + 3) as u32,
        ],
{
    assert(qs.push(q).drop_last() =~= qs);
}

/// The outward normal of a face.
pub fn face_normal(f: Face) -> (r: Point3)
    ensures
        r == normal_of(f),
{
    match f {
        Face::PosZ => Point3 { x: 0, y: 0, z: 1 },
        Face::PosX => Point3 { x: 1, y: 0, z: 0 },
        Face::NegZ => Point3 { x: 0, y: 0, z: -1 },
        Face::NegX => Point3 { x: -1, y: 0, z: 0 },
        Face::PosY => Point3 { x: 0, y: 1, z: 0 },
        Face::NegY => Point3 { x: 0, y: -1, z: 0 },
    }
}

/// Corner `i` of a face of the unit cube.
fn face_corner(f: Face, i: usize) -> (r: Point3)
    requires
        i < 4,
    ensures
        r == corner_of(f, i as int),
{
    match f {
        Face::PosZ => if i == 0 {
            Point3 { x: 0, y: 0, z: 1 }
        } else if i == 1 {
            Point3 { x: 1, y: 0, z: 1 }
        } else if i == 2 {
            Point3 { x: 1, y: 1, z: 1 }
        } else {
            Point3 { x: 0, y: 1, z: 1 }
        },
        Face::PosX => if i == 0 {
            Point3 { x: 1, y: 0, z: 1 }
        } else if i == 1 {
            Point3 { x: 1, y: 0, z: 0 }
        } else if i == 2 {
            Point3 { x: 1, y: 1, z: 0 }
        } else {
            Point3 { x: 1, y: 1, z: 1 }
        },
        Face::NegZ => if i == 0 {
            Point3 { x: 1, y: 0, z: 0 }
        } else if i == 1 {
            Point3 { x: 0, y: 0, z: 0 }
        } else if i == 2 {
            Point3 { x: 0, y: 1, z: 0 }
        } else {
            Point3 { x: 1, y: 1, z: 0 }
        },
        Face::NegX => if i == 0 {
            Point3 { x: 0, y: 0, z: 0 }
        } else if i == 1 {
            Point3 { x: 0, y: 0, z: 1 }
        } else if i == 2 {
            Point3 { x: 0, y: 1, z: 1 }
        } else {
            Point3 { x: 0, y: 1, z: 0 }
        },
        Face::PosY => if i == 0 {
            Point3 { x: 0, y: 1, z: 1 }
        } else if i == 1 {
            Point3 { x: 1, y: 1, z: 1 }
        } else if i == 2 {
            Point3 { x: 1, y: 1, z: 0 }
        } else {
            Point3 { x: 0, y: 1, z: 0 }
        },
        Face::NegY => if i == 0 {
            Point3 { x: 0, y: 0, z: 0 }
        } else if i == 1 {
            Point3 { x: 1, y: 0, z: 0 }
        } else if i == 2 {
            Point3 { x: 1, y: 0, z: 1 }
        } else {
            Point3 { x: 0, y: 0, z: 1 }
        },
    }
}

/// The block across face `f` of the cell at `g`; `None` for air, including
/// a cell outside the `i32` range.
fn neighbor_block(world: &WorldMap, g: BlockPos, f: Face) -> (r: Option<Block>)
    ensures
        r == block_in(world@, g.x + normal_of(f).x, g.y + normal_of(f).y, g.z + normal_of(f).z),
{
    let n = face_normal(f);
    let x: i64 = g.x as i64 + n.x as i64;
    let y: i64 = g.y as i64 + n.y as i64;
    let z: i64 = g.z as i64 + n.z as i64;
    if x < i32::MIN as i64 || x > i32::MAX as i64 || y < i32::MIN as i64 || y > i32::MAX as i64
        || z < i32::MIN as i64 || z > i32::MAX as i64 {
        return None;
    }
    match world.get_block_by_coordinates(&BlockPos { x: x as i32, y: y as i32, z: z as i32 }) {
        Some(b) => Some(b.kind),
        None => None,
    }
}

/// Appends the four vertices and six indices of a quad.
fn push_quad(mesh: &mut Mesh, q: Quad)
    requires
        old(mesh).positions@.len() + 4 <= u32::MAX,
        local_in_range(q.cell),
    ensures
        final(mesh).positions@ == old(mesh).positions@ + seq![quad_corner(q, 0), quad_corner(q, 1), quad_corner(q, 2), quad_corner(q, 3)],
        final(mesh).normals@ == old(mesh).normals@ + seq![normal_of(q.face), normal_of(q.face), normal_of(q.face), normal_of(q.face)],
        final(mesh).uvs@ == old(mesh).uvs@ + seq![
            uv_of(tile_of(q.kind, q.face), 0),
            uv_of(tile_of(q.kind, q.face), 1),
            uv_of(tile_of(q.kind, q.face), 2),
            uv_of(tile_of(q.kind, q.face), 3),
        ],
        final(mesh).indices@ == old(mesh).indices@ + seq![
            old(mesh).positions@.len() as u32,
            (old(mesh).positions@.len() + 1) as u32,
            (old(mesh).positions@.len() + 2) as u32,
            old(mesh).positions@.len() as u32,
            (old(mesh).positions@.len() + 2) as u32,
            (old(mesh).positions@.len() + 3) as u32,
        ],
{
    let base = mesh.positions.len() as u32;
    let mut i: usize = 0;
    while i < 4
        invariant
            i <= 4,
            local_in_range(q.cell),
            mesh.positions@ == old(mesh).positions@ + Seq::new(i as nat, |j: int| quad_corner(q, j)),
            mesh.normals@ == old(mesh).normals@ + Seq::new(i as nat, |j: int| normal_of(q.face)),
            mesh.uvs@ == old(mesh).uvs@ + Seq::new(i as nat, |j: int| uv_of(tile_of(q.kind, q.face), j)),
            mesh.indices@ == old(mesh).indices@,
        decreases 4 - i,
    {
        let k = face_corner(q.face, i);
        let t = atlas_tile(q.kind, q.face);
        mesh.positions.push(Point3 { x: q.cell.x + k.x, y: q.cell.y + k.y, z: q.cell.z + k.z });
        mesh.normals.push(face_normal(q.face));
        let uv = if i == 0 {
            Uv { u: t.col, v: t.row }
        } else if i == 1 {
            Uv { u: t.col + 1, v: t.row }
        } else if i == 2 {
            Uv { u: t.col + 1, v: t.row + 1 }
        } else {
            Uv { u: t.col, v: t.row + 1 }
        };
        mesh.uvs.push(uv);
        proof {
            assert(mesh.positions@ =~= old(mesh).positions@ + Seq::new((i + 1) as nat, |j: int| quad_corner(q, j)));
            assert(mesh.normals@ =~= old(mesh).normals@ + Seq::new((i + 1) as nat, |j: int| normal_of(q.face)));
            assert(mesh.uvs@ =~= old(mesh).uvs@ + Seq::new((i + 1) as nat, |j: int| uv_of(tile_of(q.kind, q.face), j)));
        }
        i = i + 1;
    }
    mesh.indices.push(base);
    mesh.indices.push(base + 1);
    mesh.indices.push(base + 2);
    mesh.indices.push(base);
    mesh.indices.push(base + 2);
    mesh.indices.push(base + 3);
    proof {
        assert(Seq::new(4, |j: int| quad_corner(q, j)) =~= seq![quad_corner(q, 0), quad_corner(q, 1), quad_corner(q, 2), quad_corner(q, 3)]);
        assert(Seq::new(4, |j: int| normal_of(q.face)) =~= seq![normal_of(q.face), normal_of(q.face), normal_of(q.face), normal_of(q.face)]);
        assert(Seq::new(4, |j: int| uv_of(tile_of(q.kind, q.face), j)) =~= seq![
            uv_of(tile_of(q.kind, q.face), 0),
            uv_of(tile_of(q.kind, q.face), 1),
            uv_of(tile_of(q.kind, q.face), 2),
            uv_of(tile_of(q.kind, q.face), 3),
        ]);
        assert(mesh.indices@ =~= old(mesh).indices@ + seq![
            old(mesh).positions@.len() as u32,
            (old(mesh).positions@.len() + 1) as u32,
            (old(mesh).positions@.len() + 2) as u32,
            old(mesh).positions@.len() as u32,
            (old(mesh).positions@.len() + 2) as u32,
            (old(mesh).positions@.len() + 3) as u32,
        ]);
    }
}

/// The mesh of chunk `chunk_pos`: for every cell of the chunk that holds a
/// block, in cell order, each face whose neighbour (possibly in an adjacent
/// chunk; air if that chunk is not resident) is air or not opaque, in the
/// order +Z, +X, -Z, -X, +Y, -Y. Each face has four vertices of its own and
/// two triangles. Positions are in chunk-local space.
pub fn generate_chunk_mesh(world_map: &WorldMap, chunk_pos: &ChunkPos) -> (r: Mesh)
    requires
        chunk_in_world(*chunk_pos),
    ensures
        mesh_of_quads(&r, mesh_quads(world_map@, *chunk_pos)),
{
    let c = *chunk_pos;
    let mut mesh = Mesh { positions: Vec::new(), normals: Vec::new(), uvs: Vec::new(), indices: Vec::new() };
    proof {
        assert(mesh.positions@ =~= positions_of(Seq::empty()));
        assert(mesh.normals@ =~= normals_of(Seq::empty()));
        assert(mesh.uvs@ =~= uvs_of(Seq::empty()));
        assert(mesh.indices@ =~= indices_of(Seq::empty()));
    }
    let mut i: usize = 0;
    while i < CHUNK_VOLUME
        invariant
            i <= CHUNK_VOLUME,
            chunk_in_world(c),
            mesh_of_quads(&mesh, chunk_quads(world_map@, c, i as int)),
            chunk_quads(world_map@, c, i as int).len() <= 6 * i,
        decreases CHUNK_VOLUME - i,
    {
        proof {
            lemma_index_local(i as int);
        }
        let l = LocalPos { x: (i / 256) as i32, y: ((i / 16) % 16) as i32, z: (i % 16) as i32 };
        assert(l == local_at_index(i as int));
        let g = to_global(c, l);
        let ghost before = chunk_quads(world_map@, c, i as int);
        match world_map.get_block_by_coordinates(&g) {
            Some(b) => {
                let mut d: usize = 0;
                while d < 6
                    invariant
                        d <= 6,
                        i < CHUNK_VOLUME,
                        local_in_range(l),
                        g == global_coord(c, l),
                        before.len() <= 6 * i,
                        mesh_of_quads(&mesh, before + cell_quads(world_map@, c, l, b.kind, d as int)),
                        cell_quads(world_map@, c, l, b.kind, d as int).len() <= d,
                    decreases 6 - d,
                {
                    let f = face_in_order(d);
                    let shown = match neighbor_block(world_map, g, f) {
                        None => true,
                        Some(k) => !is_opaque(k),
                    };
                    let ghost qs = before + cell_quads(world_map@, c, l, b.kind, d as int);
                    if shown {
                        let q = Quad { cell: l, face: f, kind: b.kind };
                        proof {
                            lemma_buffer_lengths(qs);
                        }
                        push_quad(&mut mesh, q);
                        proof {
                            lemma_quads_push(qs, q);
                            assert(before + cell_quads(world_map@, c, l, b.kind, d + 1) =~= qs.push(q));
                        }
                    }
                    d = d + 1;
                }
            },
            None => {},
        }
        proof {
            assert(global_coord(c, local_at_index(i as int)) == g);
        }
        i = i + 1;
    }
    mesh
}

/// Meshing is a function of the blocks of the store: two meshes built, as
/// `generate_chunk_mesh` describes its result, for the same chunk of stores
/// that hold the same blocks have identical position, normal,
/// texture-coordinate and index buffers, entry by entry and in order.
pub proof fn lemma_mesh_deterministic(a: &WorldMap, b: &WorldMap, c: ChunkPos, ma: &Mesh, mb: &Mesh)
    requires
        a@ == b@,
        mesh_of_quads(ma, mesh_quads(a@, c)),
        mesh_of_quads(mb, mesh_quads(b@, c)),
    ensures
        ma.positions@ == mb.positions@,
        ma.normals@ == mb.normals@,
        ma.uvs@ == mb.uvs@,
        ma.indices@ == mb.indices@,
{
}

/// Face culling: a block whose six neighbours all hold opaque blocks shows
/// no face, and a block whose six neighbours are all air shows its six
/// faces, which make twelve triangles (thirty-six indices).
pub proof fn lemma_face_culling(blocks: Map<BlockPos, Block>, c: ChunkPos, l: LocalPos, kind: Block)
    ensures
        (forall|f: Face| #[trigger] neighbor_of(blocks, c, l, f) is Some) ==> cell_quads(
            blocks,
            c,
            l,
            kind,
            6,
        ).len() == 0,
        (forall|f: Face| #[trigger] neighbor_of(blocks, c, l, f) is None) ==> {
            &&& cell_quads(blocks, c, l, kind, 6).len() == 6
            &&& indices_of(cell_quads(blocks, c, l, kind, 6)).len() == 36
        },
{
    let n0 = neighbor_of(blocks, c, l, face_at(0));
    let n1 = neighbor_of(blocks, c, l, face_at(1));
    let n2 = neighbor_of(blocks, c, l, face_at(2));
    let n3 = neighbor_of(blocks, c, l, face_at(3));
    let n4 = neighbor_of(blocks, c, l, face_at(4));
    let n5 = neighbor_of(blocks, c, l, face_at(5));
    assert(cell_quads(blocks, c, l, kind, 0).len() == 0);
    reveal_with_fuel(cell_quads, 7);
    lemma_buffer_lengths(cell_quads(blocks, c, l, kind, 6));
}

} // verus!
