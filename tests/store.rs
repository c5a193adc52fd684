use voxel_world::block::{Block, BlockWrapper};
use voxel_world::coords::{BlockPos, ChunkPos};
use voxel_world::terrain::generate_chunk;
use voxel_world::world::WorldMap;

fn pos(x: i32, y: i32, z: i32) -> BlockPos {
    BlockPos { x, y, z }
}

fn chunk(x: i32, y: i32, z: i32) -> ChunkPos {
    ChunkPos { x, y, z }
}

#[test]
fn set_then_get_returns_the_block() {
    let mut w = WorldMap::new();
    w.set_block(&pos(3, -4, 100), Block::Stone);
    assert_eq!(w.get_block_by_coordinates(&pos(3, -4, 100)), Some(BlockWrapper { kind: Block::Stone }));
    assert_eq!(w.get_block_by_coordinates(&pos(3, -4, 101)), None);
}

#[test]
fn set_then_remove_returns_the_block_and_leaves_air() {
    let mut w = WorldMap::new();
    w.set_block(&pos(-7, 0, 9), Block::Dirt);
    assert_eq!(w.remove_block_by_coordinates(&pos(-7, 0, 9)), Some(Block::Dirt));
    assert_eq!(w.get_block_by_coordinates(&pos(-7, 0, 9)), None);
    assert_eq!(w.remove_block_by_coordinates(&pos(-7, 0, 9)), None);
}

#[test]
fn replacing_a_block_keeps_the_counter() {
    let mut w = WorldMap::new();
    w.set_block(&pos(1, 1, 1), Block::Dirt);
    w.set_block(&pos(1, 1, 1), Block::Grass);
    assert_eq!(w.total_blocks_count(), 1);
    assert_eq!(w.get_block_by_coordinates(&pos(1, 1, 1)), Some(BlockWrapper { kind: Block::Grass }));
}

#[test]
fn counters_follow_a_sequence_of_sets_and_removes() {
    let mut w = WorldMap::new();
    let cells = [pos(0, 0, 0), pos(15, 15, 15), pos(16, 0, 0), pos(-1, 0, 0), pos(-1, 0, 1)];
    for g in cells {
        w.set_block(&g, Block::Stone);
    }
    assert_eq!(w.total_blocks_count(), 5);
    assert_eq!(w.total_chunks_count(), 3);
    assert_eq!(w.remove_block_by_coordinates(&pos(16, 0, 0)), Some(Block::Stone));
    assert_eq!(w.remove_block_by_coordinates(&pos(16, 0, 0)), None);
    assert_eq!(w.remove_block_by_coordinates(&pos(99, 0, 0)), None);
    assert_eq!(w.total_blocks_count(), 4);
    assert_eq!(w.total_chunks_count(), 3);
    assert!(w.is_resident(chunk(1, 0, 0)));
    assert_eq!(w.chunk_coords(), vec![chunk(0, 0, 0), chunk(1, 0, 0), chunk(-1, 0, 0)]);
}

#[test]
fn remove_never_creates_a_chunk() {
    let mut w = WorldMap::new();
    assert_eq!(w.remove_block_by_coordinates(&pos(5, 5, 5)), None);
    assert!(!w.is_resident(chunk(0, 0, 0)));
    assert_eq!(w.total_chunks_count(), 0);
}

#[test]
fn set_marks_owner_and_boundary_neighbours_dirty() {
    let mut w = WorldMap::new();
    for c in [chunk(0, 0, 0), chunk(-1, 0, 0), chunk(0, -1, 0), chunk(0, 0, -1), chunk(1, 0, 0)] {
        w.set_block(&pos(c.x * 16 + 8, c.y * 16 + 8, c.z * 16 + 8), Block::Stone);
        w.attach_mesh(c, 7);
    }
    assert_eq!(w.dirty_chunks(), Vec::<ChunkPos>::new());
    w.set_block(&pos(0, 0, 0), Block::Dirt);
    assert_eq!(w.dirty_chunks(), vec![chunk(0, 0, 0), chunk(-1, 0, 0), chunk(0, -1, 0), chunk(0, 0, -1)]);
    assert_eq!(w.mesh_handle(chunk(1, 0, 0)), Some(7));
}

#[test]
fn interior_cell_marks_only_its_own_chunk() {
    let mut w = WorldMap::new();
    w.set_block(&pos(20, 0, 0), Block::Stone);
    w.set_block(&pos(8, 8, 8), Block::Stone);
    w.attach_mesh(chunk(0, 0, 0), 1);
    w.attach_mesh(chunk(1, 0, 0), 2);
    w.remove_block_by_coordinates(&pos(8, 8, 8));
    assert_eq!(w.dirty_chunks(), vec![chunk(0, 0, 0)]);
}

#[test]
fn removing_air_marks_nothing() {
    let mut w = WorldMap::new();
    w.set_block(&pos(0, 0, 0), Block::Stone);
    w.attach_mesh(chunk(0, 0, 0), 3);
    assert_eq!(w.remove_block_by_coordinates(&pos(1, 0, 0)), None);
    assert_eq!(w.dirty_chunks(), Vec::<ChunkPos>::new());
}

#[test]
fn inserting_a_chunk_marks_it_and_its_planar_neighbours_dirty() {
    let mut w = WorldMap::new();
    for c in [chunk(1, 0, 0), chunk(0, 0, 1), chunk(0, 1, 0)] {
        w.set_block(&pos(c.x * 16, c.y * 16, c.z * 16 + 3), Block::Stone);
        w.attach_mesh(c, 5);
    }
    let variations = vec![0; 256];
    assert!(w.insert_chunk(chunk(0, 0, 0), generate_chunk(chunk(0, 0, 0), &variations)));
    assert_eq!(w.dirty_chunks(), vec![chunk(1, 0, 0), chunk(0, 0, 1), chunk(0, 0, 0)]);
    assert_eq!(w.mesh_handle(chunk(0, 1, 0)), Some(5));
    assert_eq!(w.total_blocks_count(), 3 + 256 * 11);
    assert!(!w.insert_chunk(chunk(0, 0, 0), generate_chunk(chunk(0, 0, 0), &variations)));
    assert_eq!(w.total_chunks_count(), 4);
}

#[test]
fn chunks_are_listed_and_readable() {
    let mut w = WorldMap::new();
    w.set_block(&pos(-1, 2, 33), Block::Bedrock);
    assert_eq!(w.chunk_coords(), vec![chunk(-1, 0, 2)]);
    let c = w.get_chunk(chunk(-1, 0, 2)).expect("resident");
    assert_eq!(c.len(), 1);
    assert_eq!(c.get(voxel_world::coords::LocalPos { x: 15, y: 2, z: 1 }), Some(Block::Bedrock));
    assert!(w.get_chunk(chunk(0, 0, 0)).is_none());
}

#[test]
fn blocks_at_the_edges_of_the_coordinate_range() {
    let mut w = WorldMap::new();
    let a = pos(i32::MAX, i32::MIN, 0);
    let b = pos(i32::MIN, i32::MAX, -1);
    w.set_block(&a, Block::Grass);
    w.set_block(&b, Block::Dirt);
    assert_eq!(w.get_block_by_coordinates(&a), Some(BlockWrapper { kind: Block::Grass }));
    assert_eq!(w.get_block_by_coordinates(&b), Some(BlockWrapper { kind: Block::Dirt }));
    assert!(w.is_resident(chunk(134217727, -134217728, 0)));
    assert_eq!(w.remove_block_by_coordinates(&a), Some(Block::Grass));
    assert_eq!(w.total_blocks_count(), 1);
}
