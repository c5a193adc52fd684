//! Terrain generation: the layering of a chunk's columns from each column's
//! surface height. The height of a column is `BASE_HEIGHT` plus a variation
//! drawn from a coherent noise field seeded by the world seed; the variation
//! is computed outside this crate and handed in as an integer per column.
use vstd::prelude::*;

use crate::block::Block;
use crate::chunk::Chunk;
use crate::coords::{
    lemma_index_local, local_at_index, local_in_range, ChunkPos, LocalPos,
    CHUNK_VOLUME,
};

verus! {

/// The seed of a world, fixed for its lifetime.
#[derive(Clone, Copy, Debug, PartialEq, Eq, Structural)]
pub struct WorldSeed(pub u32);

/// The surface height of a column whose noise variation is zero.
pub const BASE_HEIGHT: i64 = 10;

/// The lowest layer of the world, made of bedrock.
pub const WORLD_MIN_Y: i64 = 0;

/// Columns in a chunk's footprint (`CHUNK_SIZE` squared).
pub const CHUNK_COLUMNS: usize = 256;

/// The surface height of a column with the given noise variation.
pub open spec fn column_height(variation: i32) -> int {
    BASE_HEIGHT + variation
}

/// The kind of block at height `y` of a column whose surface is at `h`, for
/// `0 <= y <= h`: bedrock at the bottom, grass on top, three layers of dirt
/// below the grass and stone below the dirt.
pub open spec fn layer_kind(y: int, h: int) -> Block {
    if y == WORLD_MIN_Y {
        Block::Bedrock
    } else if y <= h - 3 {
        Block::Stone
    } else if y < h {
        Block::Dirt
    } else {
        Block::Grass
    }
}

/// The index of the column of a cell in a chunk's footprint.
pub open spec fn column_index(l: LocalPos) -> int {
    l.x * 16 + l.z
}

/// The block generated at a cell of chunk `c`, where `variations[i * 16 + j]`
/// is the noise variation of the column at local `(i, j)` of the footprint,
/// i.e. at global `(c.x * 16 + i, c.z * 16 + j)`.
pub open spec fn terrain_block(c: ChunkPos, variations: Seq<i32>, l: LocalPos) -> Option<Block> {
    let h = column_height(variations[column_index(l)]);
    let y = c.y * 16 + l.y;
    if local_in_range(l) && WORLD_MIN_Y <= y <= h {
        Some(layer_kind(y, h))
    } else {
        None
    }
}

/// The kind of block at height `y` of a column whose surface is at `h`.
pub fn layer_block(y: i64, h: i64) -> (r: Block)
    requires
        WORLD_MIN_Y <= y <= h,
    ensures
        r == layer_kind(y as int, h as int),
{
    if y == WORLD_MIN_Y {
        Block::Bedrock
    } else if y <= h - 3 {
        Block::Stone
    } else if y < h {
        Block::Dirt
    } else {
        Block::Grass
    }
}

/// Generates chunk `c` of the terrain whose column variations over the
/// chunk's footprint are `variations` (see `terrain_block`). The chunk holds
/// exactly the blocks of its own cells, and has no mesh yet.
pub fn generate_chunk(c: ChunkPos, variations: &Vec<i32>) -> (r: Chunk)
    requires
        variations@.len() == CHUNK_COLUMNS,
    ensures
        r.wf(),
        forall|l: LocalPos| #[trigger] r.cell(l) == terrain_block(c, variations@, l),
        r.size() <= CHUNK_VOLUME,
        r.mesh() is None,
{
    let mut chunk = Chunk::new();
    let mut i: usize = 0;
    while i < CHUNK_VOLUME
        invariant
            i <= CHUNK_VOLUME,
            variations@.len() == CHUNK_COLUMNS,
            chunk.wf(),
            chunk.mesh() is None,
            chunk.size() <= i,
            forall|l: LocalPos| #[trigger]
                chunk.cell(l) == if local_in_range(l) && crate::coords::local_index(l) < i {
                    terrain_block(c, variations@, l)
                } else {
                    None
                },
        decreases CHUNK_VOLUME - i,
    {
        proof {
            lemma_index_local(i as int);
        }
        let l = LocalPos { x: (i / 256) as i32, y: ((i / 16) % 16) as i32, z: (i % 16) as i32 };
        assert(l == local_at_index(i as int));
        let h: i64 = BASE_HEIGHT + variations[(i / 256) * 16 + i % 16] as i64;
        let y: i64 = c.y as i64 * 16 + l.y as i64;
        if WORLD_MIN_Y <= y && y <= h {
            chunk.insert(l, layer_block(y, h));
        }
        proof {
            assert forall|m: LocalPos| #[trigger]
                chunk.cell(m) == if local_in_range(m) && crate::coords::local_index(m) < i + 1 {
                    terrain_block(c, variations@, m)
                } else {
                    None
                } by {
                if local_in_range(m) {
                    crate::coords::lemma_local_index(m);
                }
            }
        }
        i = i + 1;
    }
    proof {
        assert forall|l: LocalPos| #[trigger] chunk.cell(l) == terrain_block(c, variations@, l) by {
            if local_in_range(l) {
                crate::coords::lemma_local_index(l);
            }
        }
    }
    chunk
}

/// Generation is deterministic: two chunks generated for the same chunk
/// coordinate from the same column variations hold the same blocks.
pub proof fn lemma_generation_deterministic(c: ChunkPos, variations: Seq<i32>, a: Chunk, b: Chunk)
    requires
        forall|l: LocalPos| #[trigger] a.cell(l) == terrain_block(c, variations, l),
        forall|l: LocalPos| #[trigger] b.cell(l) == terrain_block(c, variations, l),
    ensures
        forall|l: LocalPos| #[trigger] a.cell(l) == b.cell(l),
{
    assert forall|l: LocalPos| #[trigger] a.cell(l) == b.cell(l) by {
        assert(a.cell(l) == terrain_block(c, variations, l));
        assert(b.cell(l) == terrain_block(c, variations, l));
    }
}

} // verus!
