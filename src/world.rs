//! The chunk store: the map from chunk coordinates to chunks, which owns all
//! block state, with counters of resident blocks and chunks and per-chunk
//! dirtiness for the mesher.
use std::collections::HashMap;
use vstd::prelude::*;

use crate::block::{Block, BlockWrapper};
use crate::chunk::Chunk;
use crate::coords::{
    chunk_coord, chunk_of, local_coord, local_of, BlockPos, ChunkPos, CHUNK_SIZE,
};

verus! {

broadcast use vstd::std_specs::hash::group_hash_axioms;

/// The map key under which a chunk is stored: its three components, each
/// shifted to be non-negative, packed into 32-bit fields.
spec fn chunk_key(c: ChunkPos) -> u128 {
    ((c.x + 2147483648) * 18446744073709551616 + (c.y + 2147483648) * 4294967296 + (c.z
        + 2147483648)) as u128
}

proof fn lemma_key_unique(c: ChunkPos, d: ChunkPos)
    ensures
        chunk_key(c) == chunk_key(d) ==> c == d,
{
    let (a1, b1, e1) = (c.x + 2147483648, c.y + 2147483648, c.z + 2147483648);
    let (a2, b2, e2) = (d.x + 2147483648, d.y + 2147483648, d.z + 2147483648);
    let k1 = a1 * 18446744073709551616 + b1 * 4294967296 + e1;
    let k2 = a2 * 18446744073709551616 + b2 * 4294967296 + e2;
    assert(k1 == (a1 * 4294967296 + b1) * 4294967296 + e1);
    assert(k2 == (a2 * 4294967296 + b2) * 4294967296 + e2);
    if chunk_key(c) == chunk_key(d) {
        assert(k1 == k2);
        vstd::arithmetic::div_mod::lemma_fundamental_div_mod_converse(
            k1,
            4294967296,
            a1 * 4294967296 + b1,
            e1,
        );
        vstd::arithmetic::div_mod::lemma_fundamental_div_mod_converse(
            k2,
            4294967296,
            a2 * 4294967296 + b2,
            e2,
        );
        vstd::arithmetic::div_mod::lemma_fundamental_div_mod_converse(
            a1 * 4294967296 + b1,
            4294967296,
            a1,
            b1,
        );
        vstd::arithmetic::div_mod::lemma_fundamental_div_mod_converse(
            a2 * 4294967296 + b2,
            4294967296,
            a2,
            b2,
        );
    }
}

fn key_of(c: ChunkPos) -> (k: u128)
    ensures
        k == chunk_key(c),
{
    let a = (c.x as i64 + 2147483648) as u128;
    let b = (c.y as i64 + 2147483648) as u128;
    let e = (c.z as i64 + 2147483648) as u128;
    a * 18446744073709551616 + b * 4294967296 + e
}

/// The number of blocks in the chunks listed in `s`.
spec fn sum_sizes(m: Map<u128, Chunk>, s: Seq<ChunkPos>) -> nat
    decreases s.len(),
{
    if s.len() == 0 {
        0
    } else {
        sum_sizes(m, s.drop_last()) + m[chunk_key(s.last())].size()
    }
}

/// Replacing one chunk changes the sum by the change of its size, if the
/// chunk is listed, and not at all otherwise.
proof fn lemma_sum_update(m: Map<u128, Chunk>, s: Seq<ChunkPos>, c: ChunkPos, ch: Chunk)
    requires
        s.no_duplicates(),
    ensures
        sum_sizes(m.insert(chunk_key(c), ch), s) + (if s.contains(c) {
            m[chunk_key(c)].size()
        } else {
            0
        }) == sum_sizes(m, s) + (if s.contains(c) {
            ch.size()
        } else {
            0
        }),
    decreases s.len(),
{
    if s.len() > 0 {
        let t = s.drop_last();
        let last = s.last();
        assert(t.no_duplicates());
        lemma_sum_update(m, t, c, ch);
        lemma_key_unique(last, c);
        if last == c {
            assert(!t.contains(c)) by {
                if t.contains(c) {
                    let i = choose|i: int| 0 <= i < t.len() && t[i] == c;
                    assert(s[i] == s[s.len() - 1]);
                }
            }
        } else {
            assert(s.contains(c) == t.contains(c)) by {
                if s.contains(c) {
                    let i = choose|i: int| 0 <= i < s.len() && s[i] == c;
                    assert(t[i] == c);
                }
                if t.contains(c) {
                    let i = choose|i: int| 0 <= i < t.len() && t[i] == c;
                    assert(s[i] == c);
                }
            }
        }
    }
}

proof fn lemma_sum_push(m: Map<u128, Chunk>, s: Seq<ChunkPos>, c: ChunkPos)
    ensures
        sum_sizes(m, s.push(c)) == sum_sizes(m, s) + m[chunk_key(c)].size(),
{
    assert(s.push(c).drop_last() =~= s);
}

/// The chunk next to `c` at offset `(dx, dy, dz)`.
pub open spec fn neighbor_chunk(c: ChunkPos, dx: int, dy: int, dz: int) -> ChunkPos {
    ChunkPos { x: (c.x + dx) as i32, y: (c.y + dy) as i32, z: (c.z + dz) as i32 }
}

/// Whether the mesh of chunk `c` depends on the cell `g`: `c` holds `g`, or
/// `g` lies on the boundary of its chunk and `c` is across that boundary.
pub open spec fn mesh_depends_on(c: ChunkPos, g: BlockPos) -> bool {
    let o = chunk_coord(g);
    let l = local_coord(g);
    ||| c == o
    ||| l.x == 0 && c == neighbor_chunk(o, -1, 0, 0)
    ||| l.x == CHUNK_SIZE - 1 && c == neighbor_chunk(o, 1, 0, 0)
    ||| l.y == 0 && c == neighbor_chunk(o, 0, -1, 0)
    ||| l.y == CHUNK_SIZE - 1 && c == neighbor_chunk(o, 0, 1, 0)
    ||| l.z == 0 && c == neighbor_chunk(o, 0, 0, -1)
    ||| l.z == CHUNK_SIZE - 1 && c == neighbor_chunk(o, 0, 0, 1)
}

/// Whether `d` is one of the four chunks next to `c` along x or z.
pub open spec fn planar_neighbor(c: ChunkPos, d: ChunkPos) -> bool {
    ||| d == neighbor_chunk(c, -1, 0, 0)
    ||| d == neighbor_chunk(c, 1, 0, 0)
    ||| d == neighbor_chunk(c, 0, 0, -1)
    ||| d == neighbor_chunk(c, 0, 0, 1)
}

/// The block kind in an optional block cell.
pub open spec fn wrap(b: Option<Block>) -> Option<BlockWrapper> {
    match b {
        Some(kind) => Some(BlockWrapper { kind }),
        None => None,
    }
}

/// The resident chunks and the blocks they hold.
pub struct WorldMap {
    chunks: HashMap<u128, Chunk>,
    order: Vec<ChunkPos>,
    total_blocks_count: u64,
    total_chunks_count: u64,
}

impl View for WorldMap {
    type V = Map<BlockPos, Block>;

    /// The blocks of the store, by global coordinate.
    open spec fn view(&self) -> Map<BlockPos, Block> {
        Map::new(|g: BlockPos| self.block_at(g) is Some, |g: BlockPos| self.block_at(g)->Some_0)
    }
}

impl WorldMap {
    /// Whether a chunk is resident.
    pub closed spec fn resident(&self, c: ChunkPos) -> bool {
        self.chunks@.contains_key(chunk_key(c))
    }

    /// The resident chunk at `c`.
    pub closed spec fn chunk(&self, c: ChunkPos) -> Chunk {
        self.chunks@[chunk_key(c)]
    }

    /// The block at a global coordinate; `None` for air, including every cell
    /// of a chunk that is not resident.
    pub closed spec fn block_at(&self, g: BlockPos) -> Option<Block> {
        if self.resident(chunk_coord(g)) {
            self.chunk(chunk_coord(g)).cell(local_coord(g))
        } else {
            None
        }
    }

    /// The handle of a chunk's current mesh; `None` for a chunk that must be
    /// meshed again and for one that is not resident.
    pub closed spec fn mesh_of(&self, c: ChunkPos) -> Option<u64> {
        if self.resident(c) {
            self.chunk(c).mesh()
        } else {
            None
        }
    }

    /// A resident chunk whose mesh must be built again.
    pub open spec fn dirty(&self, c: ChunkPos) -> bool {
        self.resident(c) && self.mesh_of(c) is None
    }

    /// The resident chunks, in the order in which they became resident.
    pub closed spec fn resident_chunks(&self) -> Seq<ChunkPos> {
        self.order@
    }

    /// The number of blocks summed over the resident chunks.
    pub closed spec fn blocks_across_chunks(&self) -> nat {
        sum_sizes(self.chunks@, self.order@)
    }

    /// The value of the resident-block counter.
    pub closed spec fn counted_blocks(&self) -> nat {
        self.total_blocks_count as nat
    }

    /// The value of the resident-chunk counter.
    pub closed spec fn counted_chunks(&self) -> nat {
        self.total_chunks_count as nat
    }

    /// The store's invariant: the chunk list and the map agree, and both
    /// counters equal the true sums.
    pub closed spec fn wf(&self) -> bool {
        &&& forall|k: u128| #[trigger] self.chunks@.contains_key(k) ==> self.chunks@[k].wf()
        &&& self.order@.no_duplicates()
        &&& forall|c: ChunkPos| #[trigger] self.resident(c) <==> self.order@.contains(c)
        &&& self.total_chunks_count == self.order@.len()
        &&& self.total_blocks_count == sum_sizes(self.chunks@, self.order@)
    }

    /// Everything but the meshes is the same in both stores.
    pub open spec fn same_blocks(&self, other: &WorldMap) -> bool {
        &&& forall|g: BlockPos| #[trigger] self.block_at(g) == other.block_at(g)
        &&& forall|c: ChunkPos| #[trigger] self.resident(c) == other.resident(c)
        &&& self.resident_chunks() == other.resident_chunks()
        &&& self.counted_blocks() == other.counted_blocks()
        &&& self.counted_chunks() == other.counted_chunks()
    }

    /// An empty world.
    pub fn new() -> (r: WorldMap)
        ensures
            r.wf(),
            forall|g: BlockPos| #[trigger] r.block_at(g) is None,
            forall|c: ChunkPos| !#[trigger] r.resident(c),
            r.resident_chunks().len() == 0,
            r.counted_blocks() == 0,
            r.counted_chunks() == 0,
    {
        let r = WorldMap { chunks: HashMap::new(), order: Vec::new(), total_blocks_count: 0, total_chunks_count: 0 };
        assert(r.chunks@ =~= Map::empty());
        r
    }

    /// Whether a chunk is resident.
    pub fn is_resident(&self, c: ChunkPos) -> (r: bool)
        ensures
            r == self.resident(c),
    {
        let k = key_of(c);
        self.chunks.contains_key(&k)
    }

    /// The number of resident blocks.
    pub fn total_blocks_count(&self) -> (r: u64)
        ensures
            r == self.counted_blocks(),
    {
        self.total_blocks_count
    }

    /// The number of resident chunks.
    pub fn total_chunks_count(&self) -> (r: u64)
        ensures
            r == self.counted_chunks(),
    {
        self.total_chunks_count
    }

    /// The resident chunks, in the order in which they became resident.
    pub fn chunk_coords(&self) -> (r: Vec<ChunkPos>)
        ensures
            r@ == self.resident_chunks(),
    {
        self.order.clone()
    }

    /// The block at a global coordinate, or `None` for air.
    pub fn get_block_by_coordinates(&self, position: &BlockPos) -> (r: Option<BlockWrapper>)
        ensures
            r == wrap(self.block_at(*position)),
    {
        let c = chunk_of(*position);
        let k = key_of(c);
        match self.chunks.get(&k) {
            Some(chunk) => {
                let l = local_of(*position);
                match chunk.get(l) {
                    Some(kind) => Some(BlockWrapper { kind }),
                    None => None,
                }
            },
            None => None,
        }
    }

    /// The resident chunk at `c`, if any.
    pub fn get_chunk(&self, c: ChunkPos) -> (r: Option<&Chunk>)
        ensures
            match r {
                Some(ch) => self.resident(c) && *ch == self.chunk(c),
                None => !self.resident(c),
            },
    {
        let k = key_of(c);
        self.chunks.get(&k)
    }

    /// The handle of a chunk's current mesh, if it is resident and has one.
    pub fn mesh_handle(&self, c: ChunkPos) -> (r: Option<u64>)
        ensures
            r == self.mesh_of(c),
    {
        let k = key_of(c);
        match self.chunks.get(&k) {
            Some(chunk) => chunk.mesh_handle(),
            None => None,
        }
    }

    /// Sets the mesh handle of a chunk if it is resident.
    fn set_chunk_mesh(&mut self, c: ChunkPos, handle: Option<u64>)
        requires
            old(self).wf(),
        ensures
            final(self).wf(),
            final(self).same_blocks(old(self)),
            forall|d: ChunkPos| #[trigger] final(self).mesh_of(d) == if d == c && old(self).resident(c) {
                handle
            } else {
                old(self).mesh_of(d)
            },
    {
        let k = key_of(c);
        let removed = self.chunks.remove(&k);
        match removed {
            Some(mut chunk) => {
                let ghost before = chunk;
                chunk.set_mesh(handle);
                self.chunks.insert(k, chunk);
                proof {
                    assert(self.chunks@ =~= old(self).chunks@.insert(k, chunk));
                    lemma_sum_update(old(self).chunks@, old(self).order@, c, chunk);
                    assert(old(self).resident(c));
                    assert(old(self).chunks@[k] == before);
                    assert forall|d: ChunkPos| #[trigger] self.resident(d) == old(self).resident(d) by {
                        lemma_key_unique(c, d);
                    }
                    assert forall|g: BlockPos| #[trigger] self.block_at(g) == old(self).block_at(g) by {
                        lemma_key_unique(c, chunk_coord(g));
                    }
                    assert forall|d: ChunkPos| #[trigger] self.mesh_of(d) == if d == c && old(self).resident(c) {
                        handle
                    } else {
                        old(self).mesh_of(d)
                    } by {
                        lemma_key_unique(c, d);
                    }
                }
            },
            None => {
                proof {
                    assert(self.chunks@ =~= old(self).chunks@);
                    assert(forall|d: ChunkPos| #[trigger] self.resident(d) == old(self).resident(d));
                }
            },
        }
    }

    /// Marks a chunk for meshing again, if it is resident.
    fn mark_dirty(&mut self, c: ChunkPos)
        requires
            old(self).wf(),
        ensures
            final(self).wf(),
            final(self).same_blocks(old(self)),
            forall|d: ChunkPos| #[trigger] final(self).mesh_of(d) == if d == c {
                None
            } else {
                old(self).mesh_of(d)
            },
    {
        self.set_chunk_mesh(c, None);
    }

    /// Records the mesh the renderer built for a resident chunk; the chunk is
    /// then no longer dirty. Does nothing for a chunk that is not resident.
    pub fn attach_mesh(&mut self, c: ChunkPos, handle: u64)
        requires
            old(self).wf(),
        ensures
            final(self).wf(),
            final(self).same_blocks(old(self)),
            forall|d: ChunkPos| #[trigger] final(self).mesh_of(d) == if d == c && old(self).resident(c) {
                Some(handle)
            } else {
                old(self).mesh_of(d)
            },
    {
        self.set_chunk_mesh(c, Some(handle));
    }

    /// Marks dirty every resident chunk whose mesh depends on the cell `g`.
    fn mark_cell_dirty(&mut self, g: BlockPos)
        requires
            old(self).wf(),
        ensures
            final(self).wf(),
            final(self).same_blocks(old(self)),
            forall|d: ChunkPos| #[trigger] final(self).mesh_of(d) == if mesh_depends_on(d, g) {
                None
            } else {
                old(self).mesh_of(d)
            },
    {
        let o = chunk_of(g);
        let l = local_of(g);
        self.mark_dirty(o);
        if l.x == 0 {
            self.mark_dirty(ChunkPos { x: o.x - 1, y: o.y, z: o.z });
        }
        if l.x == CHUNK_SIZE - 1 {
            self.mark_dirty(ChunkPos { x: o.x + 1, y: o.y, z: o.z });
        }
        if l.y == 0 {
            self.mark_dirty(ChunkPos { x: o.x, y: o.y - 1, z: o.z });
        }
        if l.y == CHUNK_SIZE - 1 {
            self.mark_dirty(ChunkPos { x: o.x, y: o.y + 1, z: o.z });
        }
        if l.z == 0 {
            self.mark_dirty(ChunkPos { x: o.x, y: o.y, z: o.z - 1 });
        }
        if l.z == CHUNK_SIZE - 1 {
            self.mark_dirty(ChunkPos { x: o.x, y: o.y, z: o.z + 1 });
        }
    }

    /// Puts a block at a global coordinate, replacing what was there. The
    /// owning chunk is created if it is not resident. The owning chunk and
    /// the resident chunks across the boundary the cell lies on, if any, are
    /// marked dirty.
    pub fn set_block(&mut self, position: &BlockPos, block: Block)
        requires
            old(self).wf(),
            old(self).counted_blocks() < u64::MAX,
            old(self).counted_chunks() < u64::MAX,
        ensures
            final(self).wf(),
            forall|g: BlockPos| #[trigger] final(self).block_at(g) == if g == *position {
                Some(block)
            } else {
                old(self).block_at(g)
            },
            forall|c: ChunkPos| #[trigger] final(self).resident(c) == (old(self).resident(c) || c
                == chunk_coord(*position)),
            final(self).resident_chunks() == if old(self).resident(chunk_coord(*position)) {
                old(self).resident_chunks()
            } else {
                old(self).resident_chunks().push(chunk_coord(*position))
            },
            forall|c: ChunkPos| #[trigger] final(self).mesh_of(c) == if mesh_depends_on(c, *position) {
                None
            } else {
                old(self).mesh_of(c)
            },
            final(self).counted_blocks() == old(self).counted_blocks() + if old(self).block_at(
                *position,
            ) is None {
                1nat
            } else {
                0nat
            },
            final(self).counted_chunks() == final(self).resident_chunks().len(),
    {
        let g = *position;
        let c = chunk_of(g);
        let l = local_of(g);
        let k = key_of(c);
        let removed = self.chunks.remove(&k);
        let created = removed.is_none();
        let mut chunk = match removed {
            Some(ch) => ch,
            None => Chunk::new(),
        };
        let ghost before = chunk;
        let prev = chunk.insert(l, block);
        self.chunks.insert(k, chunk);
        proof {
            assert(self.chunks@ =~= old(self).chunks@.insert(k, chunk));
            if created {
                assert(!old(self).order@.contains(c));
                lemma_sum_update(old(self).chunks@, old(self).order@, c, chunk);
                lemma_sum_push(self.chunks@, old(self).order@, c);
            } else {
                assert(old(self).order@.contains(c));
                assert(old(self).chunks@[k] == before);
                lemma_sum_update(old(self).chunks@, old(self).order@, c, chunk);
            }
        }
        if created {
            self.order.push(c);
            self.total_chunks_count = self.total_chunks_count + 1;
        }
        if prev.is_none() {
            self.total_blocks_count = self.total_blocks_count + 1;
        }
        proof {
            assert forall|d: ChunkPos| #[trigger] self.resident(d) == (old(self).resident(d) || d == c) by {
                lemma_key_unique(c, d);
            }
            assert forall|d: ChunkPos| #[trigger] self.resident(d) <==> self.order@.contains(d) by {
                if created && d == c {
                    assert(self.order@[self.order@.len() - 1] == c);
                }
                if created && self.order@.contains(d) && d != c {
                    let i = choose|i: int| 0 <= i < self.order@.len() && self.order@[i] == d;
                    assert(old(self).order@[i] == d);
                }
                if created && old(self).order@.contains(d) {
                    let i = choose|i: int| 0 <= i < old(self).order@.len() && old(self).order@[i] == d;
                    assert(self.order@[i] == d);
                }
            }
            assert forall|h: BlockPos| #[trigger] self.block_at(h) == if h == g {
                Some(block)
            } else {
                old(self).block_at(h)
            } by {
                lemma_key_unique(c, chunk_coord(h));
                crate::coords::lemma_round_trip(g);
                crate::coords::lemma_round_trip(h);
            }
            assert forall|d: ChunkPos| #[trigger] self.mesh_of(d) == old(self).mesh_of(d) || d == c by {
                lemma_key_unique(c, d);
            }
            assert(self.wf());
        }
        self.mark_cell_dirty(g);
    }

    /// Deletes the block at a global coordinate and returns its kind, or
    /// returns `None` and changes nothing if the cell holds air. On deletion
    /// the chunks whose mesh depends on the cell are marked dirty. Never
    /// creates a chunk.
    pub fn remove_block_by_coordinates(&mut self, global_block_pos: &BlockPos) -> (r: Option<Block>)
        requires
            old(self).wf(),
        ensures
            final(self).wf(),
            r == old(self).block_at(*global_block_pos),
            forall|g: BlockPos| #[trigger] final(self).block_at(g) == if g == *global_block_pos {
                None
            } else {
                old(self).block_at(g)
            },
            forall|c: ChunkPos| #[trigger] final(self).resident(c) == old(self).resident(c),
            final(self).resident_chunks() == old(self).resident_chunks(),
            forall|c: ChunkPos| #[trigger] final(self).mesh_of(c) == if r is Some && mesh_depends_on(
                c,
                *global_block_pos,
            ) {
                None
            } else {
                old(self).mesh_of(c)
            },
            final(self).counted_blocks() + (if r is Some {
                1nat
            } else {
                0nat
            }) == old(self).counted_blocks(),
            final(self).counted_chunks() == old(self).counted_chunks(),
    {
        let g = *global_block_pos;
        let c = chunk_of(g);
        let l = local_of(g);
        let k = key_of(c);
        let removed = self.chunks.remove(&k);
        match removed {
            None => {
                proof {
                    assert(self.chunks@ =~= old(self).chunks@);
                    assert(forall|d: ChunkPos| #[trigger] self.resident(d) == old(self).resident(d));
                }
                None
            },
            Some(mut chunk) => {
                let ghost before = chunk;
                let prev = chunk.remove(l);
                self.chunks.insert(k, chunk);
                proof {
                    assert(self.chunks@ =~= old(self).chunks@.insert(k, chunk));
                    assert(old(self).resident(c));
                    assert(old(self).order@.contains(c));
                    assert(old(self).chunks@[k] == before);
                    lemma_sum_update(old(self).chunks@, old(self).order@, c, chunk);
                    assert forall|d: ChunkPos| #[trigger] self.resident(d) == old(self).resident(d) by {
                        lemma_key_unique(c, d);
                    }
                    assert forall|h: BlockPos| #[trigger] self.block_at(h) == if h == g {
                        None
                    } else {
                        old(self).block_at(h)
                    } by {
                        lemma_key_unique(c, chunk_coord(h));
                        crate::coords::lemma_round_trip(g);
                        crate::coords::lemma_round_trip(h);
                    }
                    assert forall|d: ChunkPos| #[trigger] self.mesh_of(d) == old(self).mesh_of(d) by {
                        lemma_key_unique(c, d);
                    }
                }
                if prev.is_some() {
                    self.total_blocks_count = self.total_blocks_count - 1;
                    proof {
                        assert(forall|kk: u128| #[trigger] self.chunks@.contains_key(kk) ==> self.chunks@[kk].wf());
                        assert forall|d: ChunkPos| #[trigger] self.resident(d) <==> self.order@.contains(d) by {
                            assert(old(self).resident(d) <==> old(self).order@.contains(d));
                            lemma_key_unique(c, d);
                        }
                    }
                    self.mark_cell_dirty(g);
                }
                prev
            },
        }
    }

    /// The resident chunks of `s` whose mesh must be built again, in order.
    closed spec fn dirty_in(&self, s: Seq<ChunkPos>) -> Seq<ChunkPos>
        decreases s.len(),
    {
        if s.len() == 0 {
            Seq::empty()
        } else {
            let t = self.dirty_in(s.drop_last());
            if self.mesh_of(s.last()) is None {
                t.push(s.last())
            } else {
                t
            }
        }
    }

    /// The dirty chunks, in the order in which they became resident.
    pub closed spec fn dirty_list(&self) -> Seq<ChunkPos> {
        self.dirty_in(self.order@)
    }

    proof fn lemma_dirty_in(&self, s: Seq<ChunkPos>)
        requires
            s.no_duplicates(),
        ensures
            self.dirty_in(s).no_duplicates(),
            forall|c: ChunkPos| #[trigger] self.dirty_in(s).contains(c) <==> (s.contains(c)
                && self.mesh_of(c) is None),
        decreases s.len(),
    {
        if s.len() > 0 {
            let t = s.drop_last();
            assert(t.no_duplicates());
            self.lemma_dirty_in(t);
            assert forall|c: ChunkPos| #[trigger] s.contains(c) <==> (t.contains(c) || c == s.last()) by {
                if s.contains(c) && c != s.last() {
                    let i = choose|i: int| 0 <= i < s.len() && s[i] == c;
                    assert(t[i] == c);
                }
                if t.contains(c) {
                    let i = choose|i: int| 0 <= i < t.len() && t[i] == c;
                    assert(s[i] == c);
                }
                if c == s.last() {
                    assert(s[s.len() - 1] == c);
                }
            }
            assert(!t.contains(s.last())) by {
                if t.contains(s.last()) {
                    let i = choose|i: int| 0 <= i < t.len() && t[i] == s.last();
                    assert(s[i] == s[s.len() - 1]);
                }
            }
            let d = self.dirty_in(t);
            if self.mesh_of(s.last()) is None {
                assert forall|c: ChunkPos| #[trigger] d.push(s.last()).contains(c) <==> (d.contains(c) || c
                    == s.last()) by {
                    if d.push(s.last()).contains(c) && c != s.last() {
                        let i = choose|i: int| 0 <= i < d.len() + 1 && d.push(s.last())[i] == c;
                        assert(d[i] == c);
                    }
                    if d.contains(c) {
                        let i = choose|i: int| 0 <= i < d.len() && d[i] == c;
                        assert(d.push(s.last())[i] == c);
                    }
                    if c == s.last() {
                        assert(d.push(s.last())[d.len() as int] == c);
                    }
                }
                assert(!d.contains(s.last()));
                assert forall|i: int, j: int|
                    0 <= i < d.len() + 1 && 0 <= j < d.len() + 1 && i != j implies d.push(s.last())[i]
                        != d.push(s.last())[j] by {
                    if i < d.len() && j < d.len() {
                        assert(d[i] != d[j]);
                    } else if i < d.len() {
                        assert(d.contains(d[i]));
                    } else {
                        assert(d.contains(d[j]));
                    }
                }
            }
        }
    }

    /// The dirty chunks: the resident chunks whose mesh must be built again,
    /// each once, in the order in which they became resident.
    pub fn dirty_chunks(&self) -> (r: Vec<ChunkPos>)
        requires
            self.wf(),
        ensures
            r@ == self.dirty_list(),
            r@.no_duplicates(),
            forall|c: ChunkPos| #[trigger] r@.contains(c) <==> self.dirty(c),
    {
        let mut r: Vec<ChunkPos> = Vec::new();
        let mut i: usize = 0;
        while i < self.order.len()
            invariant
                i <= self.order@.len(),
                r@ == self.dirty_in(self.order@.take(i as int)),
            decreases self.order@.len() - i,
        {
            let c = self.order[i];
            if self.mesh_handle(c).is_none() {
                r.push(c);
            }
            proof {
                assert(self.order@.take(i + 1).drop_last() =~= self.order@.take(i as int));
            }
            i = i + 1;
        }
        proof {
            assert(self.order@.take(i as int) =~= self.order@);
            self.lemma_dirty_in(self.order@);
        }
        r
    }

    /// Makes a freshly generated chunk resident at `c`, unless a chunk is
    /// already resident there, in which case nothing changes. The new chunk
    /// is dirty, and so are its resident neighbours along x and z, whose
    /// boundary faces it may hide.
    pub fn insert_chunk(&mut self, c: ChunkPos, chunk: Chunk) -> (inserted: bool)
        requires
            old(self).wf(),
            chunk.wf(),
            i32::MIN < c.x < i32::MAX,
            i32::MIN < c.z < i32::MAX,
            old(self).counted_blocks() + chunk.size() <= u64::MAX,
            old(self).counted_chunks() < u64::MAX,
        ensures
            final(self).wf(),
            inserted == !old(self).resident(c),
            forall|g: BlockPos| #[trigger] final(self).block_at(g) == if inserted && chunk_coord(g)
                == c {
                chunk.cell(local_coord(g))
            } else {
                old(self).block_at(g)
            },
            forall|d: ChunkPos| #[trigger] final(self).resident(d) == (old(self).resident(d) || d
                == c),
            final(self).resident_chunks() == if inserted {
                old(self).resident_chunks().push(c)
            } else {
                old(self).resident_chunks()
            },
            forall|d: ChunkPos| #[trigger] final(self).mesh_of(d) == if inserted && (d == c
                || planar_neighbor(c, d)) {
                None
            } else {
                old(self).mesh_of(d)
            },
            final(self).counted_blocks() == old(self).counted_blocks() + if inserted {
                chunk.size()
            } else {
                0nat
            },
            final(self).counted_chunks() == old(self).counted_chunks() + if inserted {
                1nat
            } else {
                0nat
            },
            final(self).counted_chunks() == final(self).resident_chunks().len(),
    {
        let k = key_of(c);
        if self.chunks.contains_key(&k) {
            return false;
        }
        let mut chunk = chunk;
        chunk.set_mesh(None);
        let n = chunk.len();
        self.chunks.insert(k, chunk);
        self.order.push(c);
        self.total_chunks_count = self.total_chunks_count + 1;
        self.total_blocks_count = self.total_blocks_count + n as u64;
        proof {
            assert(!old(self).resident(c));
            assert(!old(self).order@.contains(c));
            lemma_sum_update(old(self).chunks@, old(self).order@, c, chunk);
            lemma_sum_push(self.chunks@, old(self).order@, c);
            assert forall|d: ChunkPos| #[trigger] self.resident(d) == (old(self).resident(d) || d == c) by {
                lemma_key_unique(c, d);
            }
            assert forall|d: ChunkPos| #[trigger] self.resident(d) <==> self.order@.contains(d) by {
                assert(old(self).resident(d) <==> old(self).order@.contains(d));
                if d == c {
                    assert(self.order@[self.order@.len() - 1] == c);
                }
                if self.order@.contains(d) && d != c {
                    let i = choose|i: int| 0 <= i < self.order@.len() && self.order@[i] == d;
                    assert(old(self).order@[i] == d);
                }
                if old(self).order@.contains(d) {
                    let i = choose|i: int| 0 <= i < old(self).order@.len() && old(self).order@[i] == d;
                    assert(self.order@[i] == d);
                }
            }
            assert forall|g: BlockPos| #[trigger] self.block_at(g) == if chunk_coord(g) == c {
                chunk.cell(local_coord(g))
            } else {
                old(self).block_at(g)
            } by {
                lemma_key_unique(c, chunk_coord(g));
            }
            assert forall|d: ChunkPos| #[trigger] self.mesh_of(d) == if d == c {
                None
            } else {
                old(self).mesh_of(d)
            } by {
                lemma_key_unique(c, d);
            }
        }
        self.mark_dirty(ChunkPos { x: c.x - 1, y: c.y, z: c.z });
        self.mark_dirty(ChunkPos { x: c.x + 1, y: c.y, z: c.z });
        self.mark_dirty(ChunkPos { x: c.x, y: c.y, z: c.z - 1 });
        self.mark_dirty(ChunkPos { x: c.x, y: c.y, z: c.z + 1 });
        true
    }
}

/// Setting a block and reading the cell gives the block back; removing the
/// block afterwards returns it and leaves air in the cell. `w1` is `w0` after
/// `set_block(g, k)` and `w2` is `w1` after `remove_block_by_coordinates(g)`,
/// as those functions describe their results.
pub proof fn lemma_set_get_remove(w0: WorldMap, w1: WorldMap, w2: WorldMap, g: BlockPos, k: Block)
    requires
        forall|h: BlockPos| #[trigger] w1.block_at(h) == if h == g {
            Some(k)
        } else {
            w0.block_at(h)
        },
        forall|h: BlockPos| #[trigger] w2.block_at(h) == if h == g {
            None
        } else {
            w1.block_at(h)
        },
    ensures
        wrap(w1.block_at(g)) == Some(BlockWrapper { kind: k }),
        w1.block_at(g) == Some(k),
        wrap(w2.block_at(g)) is None,
{
}

/// In every well-formed store, which every operation of the store preserves,
/// the block counter equals the number of blocks summed over the resident
/// chunks and the chunk counter equals the number of resident chunks.
pub proof fn lemma_counters_accurate(w: WorldMap)
    requires
        w.wf(),
    ensures
        w.counted_blocks() == w.blocks_across_chunks(),
        w.counted_chunks() == w.resident_chunks().len(),
{
}

/// A cell that holds a block lies in a resident chunk, and the store's view
/// holds exactly the blocks that `block_at` reports.
pub proof fn lemma_block_in_resident_chunk(w: &WorldMap, g: BlockPos)
    ensures
        w.block_at(g) is Some ==> w.resident(chunk_coord(g)),
        w@.contains_key(g) <==> w.block_at(g) is Some,
        w@.contains_key(g) ==> w.block_at(g) == Some(w@[g]),
{
}

} // verus!
