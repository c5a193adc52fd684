use voxel_world::block::Block;
use voxel_world::coords::{BlockPos, ChunkPos};
use voxel_world::mesh::{generate_chunk_mesh, Point3, Uv};
use voxel_world::terrain::generate_chunk;
use voxel_world::world::WorldMap;

fn origin() -> ChunkPos {
    ChunkPos { x: 0, y: 0, z: 0 }
}

fn p(x: i32, y: i32, z: i32) -> Point3 {
    Point3 { x, y, z }
}

#[test]
fn isolated_block_shows_six_faces_in_order() {
    let mut w = WorldMap::new();
    w.set_block(&BlockPos { x: 5, y: 5, z: 5 }, Block::Grass);
    let m = generate_chunk_mesh(&w, &origin());
    assert_eq!(m.positions.len(), 24);
    assert_eq!(m.indices.len(), 36);
    let normals: Vec<Point3> = m.normals.iter().step_by(4).copied().collect();
    assert_eq!(
        normals,
        vec![p(0, 0, 1), p(1, 0, 0), p(0, 0, -1), p(-1, 0, 0), p(0, 1, 0), p(0, -1, 0)]
    );
    assert_eq!(&m.positions[0..4], &[p(5, 5, 6), p(6, 5, 6), p(6, 6, 6), p(5, 6, 6)]);
    assert_eq!(&m.indices[0..12], &[0, 1, 2, 0, 2, 3, 4, 5, 6, 4, 6, 7]);
    assert_eq!(&m.uvs[0..4], &[Uv { u: 1, v: 0 }, Uv { u: 2, v: 0 }, Uv { u: 2, v: 1 }, Uv { u: 1, v: 1 }]);
    assert_eq!(m.uvs[16], Uv { u: 0, v: 0 });
    assert_eq!(m.uvs[20], Uv { u: 2, v: 0 });
}

#[test]
fn interior_cell_of_a_cube_shows_no_face() {
    let mut w = WorldMap::new();
    for x in 4..7 {
        for y in 4..7 {
            for z in 4..7 {
                w.set_block(&BlockPos { x, y, z }, Block::Stone);
            }
        }
    }
    let m = generate_chunk_mesh(&w, &origin());
    assert_eq!(m.positions.len(), 54 * 4);
    assert_eq!(m.indices.len(), 54 * 6);
    let on_boundary = |q: &[Point3]| {
        [4, 7].iter().any(|&b| {
            q.iter().all(|v| v.x == b) || q.iter().all(|v| v.y == b) || q.iter().all(|v| v.z == b)
        })
    };
    assert!(m.positions.chunks(4).all(on_boundary));
}

#[test]
fn faces_against_a_neighbour_chunk_are_culled() {
    let mut w = WorldMap::new();
    w.set_block(&BlockPos { x: 15, y: 5, z: 5 }, Block::Stone);
    assert_eq!(generate_chunk_mesh(&w, &origin()).positions.len(), 24);
    w.set_block(&BlockPos { x: 16, y: 5, z: 5 }, Block::Stone);
    assert_eq!(generate_chunk_mesh(&w, &origin()).positions.len(), 20);
    assert_eq!(generate_chunk_mesh(&w, &ChunkPos { x: 1, y: 0, z: 0 }).positions.len(), 20);
}

#[test]
fn meshing_twice_gives_the_same_buffers() {
    let mut w = WorldMap::new();
    w.insert_chunk(origin(), generate_chunk(origin(), &(0..256).map(|i| (i % 7) - 3).collect()));
    let a = generate_chunk_mesh(&w, &origin());
    let b = generate_chunk_mesh(&w, &origin());
    assert_eq!(a.positions, b.positions);
    assert_eq!(a.normals, b.normals);
    assert_eq!(a.uvs, b.uvs);
    assert_eq!(a.indices, b.indices);
}

#[test]
fn removing_a_surface_block_exposes_its_neighbours() {
    let mut w = WorldMap::new();
    w.insert_chunk(origin(), generate_chunk(origin(), &vec![0; 256]));
    let before = generate_chunk_mesh(&w, &origin());
    assert_eq!(before.positions.len(), 4 * (256 + 256 + 4 * 16 * 11));
    w.attach_mesh(origin(), 1);
    assert!(w.dirty_chunks().is_empty());
    assert_eq!(w.remove_block_by_coordinates(&BlockPos { x: 5, y: 10, z: 5 }), Some(Block::Grass));
    assert_eq!(w.dirty_chunks(), vec![origin()]);
    let after = generate_chunk_mesh(&w, &origin());
    assert_eq!(after.positions.len(), before.positions.len() + 4 * 4);
    let top_of_removed = [p(5, 11, 6), p(6, 11, 6), p(6, 11, 5), p(5, 11, 5)];
    assert!(after.positions.chunks(4).all(|q| q != top_of_removed));
    let exposed_below = [p(5, 10, 6), p(6, 10, 6), p(6, 10, 5), p(5, 10, 5)];
    assert!(after.positions.chunks(4).any(|q| q == exposed_below));
    assert!(!before.positions.chunks(4).any(|q| q == exposed_below));
}

#[test]
fn faces_beyond_the_coordinate_range_are_shown() {
    let mut w = WorldMap::new();
    w.set_block(&BlockPos { x: i32::MAX, y: 0, z: 0 }, Block::Stone);
    let m = generate_chunk_mesh(&w, &ChunkPos { x: 134217727, y: 0, z: 0 });
    assert_eq!(m.positions.len(), 24);
    assert_eq!(m.positions[4], p(16, 0, 1));
}
