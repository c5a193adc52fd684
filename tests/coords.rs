use voxel_world::coords::{
    block_to_chunk_coord, block_to_local_coord, chunk_of, local_of, to_global, BlockPos, ChunkPos,
    LocalPos, CHUNK_SIZE,
};

fn pos(x: i32, y: i32, z: i32) -> BlockPos {
    BlockPos { x, y, z }
}

#[test]
fn round_trip_on_sample_coordinates() {
    let samples = [
        pos(0, 0, 0),
        pos(1, 2, 3),
        pos(-1, -1, -1),
        pos(15, 16, 17),
        pos(-16, -17, -15),
        pos(i32::MIN, i32::MAX, 0),
        pos(i32::MAX, i32::MIN, -123456),
    ];
    for g in samples {
        assert_eq!(to_global(chunk_of(g), local_of(g)), g);
    }
}

#[test]
fn local_components_stay_in_range() {
    for v in -100..100 {
        let l = local_of(pos(v, v * 7, -v * 3));
        for c in [l.x, l.y, l.z] {
            assert!(0 <= c && c < CHUNK_SIZE);
        }
    }
}

#[test]
fn chunk_boundary_at_negative_coordinates() {
    assert_eq!(chunk_of(pos(-1, -1, -1)), ChunkPos { x: -1, y: -1, z: -1 });
    assert_eq!(
        local_of(pos(-1, -1, -1)),
        LocalPos { x: CHUNK_SIZE - 1, y: CHUNK_SIZE - 1, z: CHUNK_SIZE - 1 }
    );
}

#[test]
fn exact_multiples_belong_to_the_chunk_they_start() {
    assert_eq!(block_to_chunk_coord(16), 1);
    assert_eq!(block_to_local_coord(16), 0);
    assert_eq!(block_to_chunk_coord(-16), -1);
    assert_eq!(block_to_local_coord(-16), 0);
    assert_eq!(block_to_chunk_coord(-17), -2);
    assert_eq!(block_to_local_coord(-17), 15);
    assert_eq!(block_to_chunk_coord(15), 0);
    assert_eq!(block_to_chunk_coord(i32::MIN), -134217728);
    assert_eq!(block_to_local_coord(i32::MAX), 15);
}

#[test]
fn to_global_composes_components() {
    let g = to_global(ChunkPos { x: -2, y: 0, z: 3 }, LocalPos { x: 5, y: 6, z: 7 });
    assert_eq!(g, pos(-27, 6, 55));
}
