//! Coordinate algebra: global block coordinates, chunk coordinates and
//! chunk-local coordinates, related by floored division and Euclidean
//! remainder so that negative coordinates round toward minus infinity.
use vstd::prelude::*;

verus! {

/// Edge length of a chunk, in blocks.
pub const CHUNK_SIZE: i32 = 16;

/// Number of cells in a chunk (`CHUNK_SIZE` cubed).
pub const CHUNK_VOLUME: usize = 4096;

/// A global block coordinate.
#[derive(Clone, Copy, Debug, PartialEq, Eq, Structural, Hash)]
pub struct BlockPos {
    pub x: i32,
    pub y: i32,
    pub z: i32,
}

/// The coordinate of a chunk: the chunk holds the globals
/// `chunk * CHUNK_SIZE + local` for every local coordinate.
#[derive(Clone, Copy, Debug, PartialEq, Eq, Structural, Hash)]
pub struct ChunkPos {
    pub x: i32,
    pub y: i32,
    pub z: i32,
}

/// A block coordinate inside a chunk; each component lies in `[0, CHUNK_SIZE)`
/// for the values this library hands out.
#[derive(Clone, Copy, Debug, PartialEq, Eq, Structural, Hash)]
pub struct LocalPos {
    pub x: i32,
    pub y: i32,
    pub z: i32,
}

/// Floored quotient of a global component by the chunk size.
pub open spec fn chunk_component(a: int) -> int {
    a / (CHUNK_SIZE as int)
}

/// Euclidean remainder of a global component by the chunk size.
pub open spec fn local_component(a: int) -> int {
    a % (CHUNK_SIZE as int)
}

/// The chunk that holds a global block coordinate.
pub open spec fn chunk_coord(g: BlockPos) -> ChunkPos {
    ChunkPos {
        x: chunk_component(g.x as int) as i32,
        y: chunk_component(g.y as int) as i32,
        z: chunk_component(g.z as int) as i32,
    }
}

/// The position of a global block coordinate inside its chunk.
pub open spec fn local_coord(g: BlockPos) -> LocalPos {
    LocalPos {
        x: local_component(g.x as int) as i32,
        y: local_component(g.y as int) as i32,
        z: local_component(g.z as int) as i32,
    }
}

/// `chunk * CHUNK_SIZE + local`, component by component, as integers.
pub open spec fn global_component(c: int, l: int) -> int {
    c * (CHUNK_SIZE as int) + l
}

/// Whether `chunk * CHUNK_SIZE + local` fits a global coordinate.
pub open spec fn global_fits(c: ChunkPos, l: LocalPos) -> bool {
    &&& i32::MIN <= global_component(c.x as int, l.x as int) <= i32::MAX
    &&& i32::MIN <= global_component(c.y as int, l.y as int) <= i32::MAX
    &&& i32::MIN <= global_component(c.z as int, l.z as int) <= i32::MAX
}

/// The global coordinate of a local coordinate of a chunk.
pub open spec fn global_coord(c: ChunkPos, l: LocalPos) -> BlockPos {
    BlockPos {
        x: global_component(c.x as int, l.x as int) as i32,
        y: global_component(c.y as int, l.y as int) as i32,
        z: global_component(c.z as int, l.z as int) as i32,
    }
}

/// A chunk whose cells all have global coordinates that fit an `i32`.
pub open spec fn chunk_in_world(c: ChunkPos) -> bool {
    &&& -134217728 <= c.x < 134217728
    &&& -134217728 <= c.y < 134217728
    &&& -134217728 <= c.z < 134217728
}

/// Each component lies in `[0, CHUNK_SIZE)`.
pub open spec fn local_in_range(l: LocalPos) -> bool {
    &&& 0 <= l.x < CHUNK_SIZE
    &&& 0 <= l.y < CHUNK_SIZE
    &&& 0 <= l.z < CHUNK_SIZE
}

/// The index of a cell of a chunk, `x`, then `y`, then `z` varying fastest.
pub open spec fn local_index(l: LocalPos) -> int {
    (l.x * CHUNK_SIZE + l.y) * CHUNK_SIZE + l.z
}

/// The cell of a chunk at a given index, the inverse of `local_index`.
pub open spec fn local_at_index(i: int) -> LocalPos {
    LocalPos {
        x: (i / 256) as i32,
        y: ((i / 16) % 16) as i32,
        z: (i % 16) as i32,
    }
}

proof fn lemma_component(a: int)
    ensures
        a == global_component(chunk_component(a), local_component(a)),
        0 <= local_component(a) < CHUNK_SIZE,
        i32::MIN <= a <= i32::MAX ==> -134217728 <= chunk_component(a) < 134217728,
{
    assert(a == 16 * (a / 16) + a % 16) by (nonlinear_arith);
    if i32::MIN <= a <= i32::MAX {
        assert(-134217728 <= a / 16 < 134217728) by (nonlinear_arith)
            requires
                -2147483648 <= a <= 2147483647,
        ;
    }
}

/// Decomposing a global coordinate into its chunk and local coordinates and
/// composing them again gives the global coordinate back.
pub proof fn lemma_round_trip(g: BlockPos)
    ensures
        global_fits(chunk_coord(g), local_coord(g)),
        global_coord(chunk_coord(g), local_coord(g)) == g,
{
    lemma_component(g.x as int);
    lemma_component(g.y as int);
    lemma_component(g.z as int);
}

/// Every component of a local coordinate lies in `[0, CHUNK_SIZE)`.
pub proof fn lemma_local_in_range(g: BlockPos)
    ensures
        local_in_range(local_coord(g)),
{
    lemma_component(g.x as int);
    lemma_component(g.y as int);
    lemma_component(g.z as int);
}

proof fn lemma_component_unique(c: int, l: int)
    requires
        0 <= l < CHUNK_SIZE,
    ensures
        chunk_component(global_component(c, l)) == c,
        local_component(global_component(c, l)) == l,
{
    vstd::arithmetic::div_mod::lemma_fundamental_div_mod_converse(
        global_component(c, l),
        16,
        c,
        l,
    );
}

/// A global coordinate has exactly one decomposition into a chunk coordinate
/// and an in-range local coordinate.
pub proof fn lemma_decomposition_unique(c: ChunkPos, l: LocalPos)
    requires
        local_in_range(l),
        global_fits(c, l),
    ensures
        chunk_coord(global_coord(c, l)) == c,
        local_coord(global_coord(c, l)) == l,
{
    lemma_component_unique(c.x as int, l.x as int);
    lemma_component_unique(c.y as int, l.y as int);
    lemma_component_unique(c.z as int, l.z as int);
}

/// Cell indices of in-range local coordinates are distinct and lie in
/// `[0, CHUNK_VOLUME)`, and `local_at_index` inverts them.
pub proof fn lemma_local_index(l: LocalPos)
    requires
        local_in_range(l),
    ensures
        0 <= local_index(l) < CHUNK_VOLUME,
        local_at_index(local_index(l)) == l,
{
    let i = local_index(l);
    assert(0 <= i < 4096) by (nonlinear_arith)
        requires
            i == (l.x * 16 + l.y) * 16 + l.z,
            0 <= l.x < 16,
            0 <= l.y < 16,
            0 <= l.z < 16,
    ;
    vstd::arithmetic::div_mod::lemma_fundamental_div_mod_converse(i, 256, l.x as int, l.y * 16 + l.z);
    vstd::arithmetic::div_mod::lemma_fundamental_div_mod_converse(i, 16, l.x * 16 + l.y, l.z as int);
    vstd::arithmetic::div_mod::lemma_fundamental_div_mod_converse(l.x * 16 + l.y, 16, l.x as int, l.y as int);
}

/// Every index in `[0, CHUNK_VOLUME)` names an in-range cell whose index it is.
pub proof fn lemma_index_local(i: int)
    requires
        0 <= i < CHUNK_VOLUME,
    ensures
        local_in_range(local_at_index(i)),
        local_index(local_at_index(i)) == i,
{
    assert(i == 256 * (i / 256) + 16 * ((i / 16) % 16) + i % 16 && 0 <= i / 256 < 16) by (nonlinear_arith)
        requires
            0 <= i < 4096,
    ;
}

/// The chunk component of a global component (floored division).
pub fn block_to_chunk_coord(x: i32) -> (r: i32)
    ensures
        r == chunk_component(x as int),
        -134217728 <= r < 134217728,
{
    let shifted: i64 = x as i64 + 2147483648;
    proof {
        vstd::arithmetic::div_mod::lemma_fundamental_div_mod_converse(
            shifted as int,
            16,
            chunk_component(x as int) + 134217728,
            local_component(x as int),
        );
        lemma_component(x as int);
    }
    (shifted / 16 - 134217728) as i32
}

/// The local component of a global component (Euclidean remainder).
pub fn block_to_local_coord(x: i32) -> (r: i32)
    ensures
        r == local_component(x as int),
{
    let shifted: i64 = x as i64 + 2147483648;
    proof {
        vstd::arithmetic::div_mod::lemma_fundamental_div_mod_converse(
            shifted as int,
            16,
            chunk_component(x as int) + 134217728,
            local_component(x as int),
        );
        lemma_component(x as int);
    }
    (shifted % 16) as i32
}

/// The chunk that holds a global block coordinate.
pub fn chunk_of(g: BlockPos) -> (r: ChunkPos)
    ensures
        r == chunk_coord(g),
        chunk_in_world(r),
{
    ChunkPos { x: block_to_chunk_coord(g.x), y: block_to_chunk_coord(g.y), z: block_to_chunk_coord(g.z) }
}

/// The position of a global block coordinate inside its chunk.
pub fn local_of(g: BlockPos) -> (r: LocalPos)
    ensures
        r == local_coord(g),
        local_in_range(r),
{
    proof {
        lemma_local_in_range(g);
    }
    LocalPos { x: block_to_local_coord(g.x), y: block_to_local_coord(g.y), z: block_to_local_coord(g.z) }
}

/// `chunk * CHUNK_SIZE + local`, component by component.
pub fn to_global(c: ChunkPos, l: LocalPos) -> (r: BlockPos)
    requires
        global_fits(c, l),
    ensures
        r == global_coord(c, l),
{
    BlockPos {
        x: (c.x as i64 * 16 + l.x as i64) as i32,
        y: (c.y as i64 * 16 + l.y as i64) as i32,
        z: (c.z as i64 * 16 + l.z as i64) as i32,
    }
}

} // verus!
