use noise::{NoiseFn, Perlin};
use voxel_world::block::Block;
use voxel_world::coords::{BlockPos, ChunkPos, LocalPos};
use voxel_world::streaming::{chunks_to_load, load_chunk_around_player};
use voxel_world::terrain::{generate_chunk, layer_block, BASE_HEIGHT};
use voxel_world::player::{player_chunk, FixedVec3, Player};
use voxel_world::world::WorldMap;

fn variations(seed: u32, c: ChunkPos) -> Vec<i32> {
    let perlin = Perlin::new(seed);
    let mut v = Vec::new();
    for i in 0..16 {
        for j in 0..16 {
            let x = 16 * c.x + i;
            let z = 16 * c.z + j;
            v.push((perlin.get([x as f64 * 0.1, z as f64 * 0.1]) * 5.0).round() as i32);
        }
    }
    v
}

#[test]
fn origin_column_with_seed_42() {
    let c = ChunkPos { x: 0, y: 0, z: 0 };
    let v = variations(42, c);
    let h = BASE_HEIGHT + v[0] as i64;
    assert_eq!(h, 10);
    let chunk = generate_chunk(c, &v);
    for y in 0..16 {
        let cell = chunk.get(LocalPos { x: 0, y, z: 0 });
        let expected = if y == 0 {
            Some(Block::Bedrock)
        } else if y <= 7 {
            Some(Block::Stone)
        } else if y <= 9 {
            Some(Block::Dirt)
        } else if y == 10 {
            Some(Block::Grass)
        } else {
            None
        };
        assert_eq!(cell, expected, "y = {}", y);
    }
}

#[test]
fn generation_is_deterministic() {
    for c in [ChunkPos { x: 0, y: 0, z: 0 }, ChunkPos { x: -3, y: 0, z: 5 }] {
        let a = generate_chunk(c, &variations(7, c));
        let b = generate_chunk(c, &variations(7, c));
        assert_eq!(a.len(), b.len());
        for x in 0..16 {
            for y in 0..16 {
                for z in 0..16 {
                    let l = LocalPos { x, y, z };
                    assert_eq!(a.get(l), b.get(l));
                }
            }
        }
    }
}

#[test]
fn layers_of_a_column() {
    assert_eq!(layer_block(0, 10), Block::Bedrock);
    assert_eq!(layer_block(0, 0), Block::Bedrock);
    assert_eq!(layer_block(7, 10), Block::Stone);
    assert_eq!(layer_block(8, 10), Block::Dirt);
    assert_eq!(layer_block(9, 10), Block::Dirt);
    assert_eq!(layer_block(10, 10), Block::Grass);
    assert_eq!(layer_block(1, 2), Block::Dirt);
    assert_eq!(layer_block(2, 2), Block::Grass);
}

#[test]
fn chunks_above_and_below_hold_only_their_own_cells() {
    let v = vec![20; 256];
    let low = generate_chunk(ChunkPos { x: 0, y: 0, z: 0 }, &v);
    let high = generate_chunk(ChunkPos { x: 0, y: 1, z: 0 }, &v);
    let below = generate_chunk(ChunkPos { x: 0, y: -1, z: 0 }, &v);
    assert_eq!(low.len(), 4096);
    assert_eq!(high.len(), 256 * 15);
    assert_eq!(below.len(), 0);
    assert_eq!(high.get(LocalPos { x: 3, y: 14, z: 3 }), Some(Block::Grass));
    assert_eq!(high.get(LocalPos { x: 3, y: 15, z: 3 }), None);
}

#[test]
fn streaming_fills_the_window_around_the_player() {
    let mut w = WorldMap::new();
    let mut player = Player::new();
    player.position = FixedVec3 { x: 0, y: 100_000, z: 0 };
    let centre = player_chunk(&player);
    assert_eq!(centre, ChunkPos { x: 0, y: 0, z: 0 });
    let todo = chunks_to_load(&w, centre, 1);
    assert_eq!(todo.len(), 9);
    let columns: Vec<Vec<i32>> = todo.iter().map(|c| variations(1, *c)).collect();
    load_chunk_around_player(&mut w, centre, 1, &columns);
    assert_eq!(w.total_chunks_count(), 9);
    for dx in -1..=1 {
        for dz in -1..=1 {
            assert!(w.is_resident(ChunkPos { x: dx, y: 0, z: dz }));
        }
    }

    player.position = FixedVec3 { x: 32_000, y: 100_000, z: 0 };
    let centre = player_chunk(&player);
    assert_eq!(centre, ChunkPos { x: 2, y: 0, z: 0 });
    let todo = chunks_to_load(&w, centre, 1);
    assert_eq!(todo.len(), 6);
    let columns: Vec<Vec<i32>> = todo.iter().map(|c| variations(1, *c)).collect();
    load_chunk_around_player(&mut w, centre, 1, &columns);
    for dx in 1..=3 {
        for dz in -1..=1 {
            assert!(w.is_resident(ChunkPos { x: dx, y: 0, z: dz }));
        }
    }
    assert_eq!(w.total_chunks_count(), 15);
    assert!(chunks_to_load(&w, centre, 1).is_empty());
}

#[test]
fn streamed_chunks_hold_the_generated_terrain() {
    let mut w = WorldMap::new();
    let centre = ChunkPos { x: -4, y: 0, z: 9 };
    let todo = chunks_to_load(&w, centre, 0);
    assert_eq!(todo, vec![centre]);
    let v = variations(3, centre);
    load_chunk_around_player(&mut w, centre, 0, &vec![v.clone()]);
    let h = BASE_HEIGHT as i32 + v[5 * 16 + 6];
    let g = BlockPos { x: -4 * 16 + 5, y: h, z: 9 * 16 + 6 };
    assert_eq!(w.get_block_by_coordinates(&g).map(|b| b.kind), Some(Block::Grass));
    assert_eq!(w.get_block_by_coordinates(&BlockPos { y: h + 1, ..g }), None);
    assert_eq!(w.dirty_chunks(), vec![centre]);
}
