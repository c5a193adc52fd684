//! A chunk: a sparse map from in-range local coordinates to block kinds, and
//! the handle of the render mesh last built for it, if it is still current.
use std::collections::HashMap;
use vstd::prelude::*;

use crate::block::Block;
use crate::coords::{local_in_range, local_index, lemma_local_index, LocalPos, CHUNK_VOLUME};

verus! {

broadcast use vstd::std_specs::hash::group_hash_axioms;

/// A cube of `CHUNK_SIZE` blocks per side.
pub struct Chunk {
    map: HashMap<u16, Block>,
    mesh: Option<u64>,
}

/// The map key of an in-range cell.
fn cell_key(l: LocalPos) -> (k: u16)
    requires
        local_in_range(l),
    ensures
        k == local_index(l),
{
    proof {
        lemma_local_index(l);
    }
    ((l.x as u16 * 16 + l.y as u16) * 16 + l.z as u16)
}

impl Chunk {
    /// Every key of the map is the index of an in-range cell.
    pub closed spec fn wf(&self) -> bool {
        forall|k: u16| #[trigger] self.map@.contains_key(k) ==> k < CHUNK_VOLUME
    }

    /// The block at a cell, or `None` for air (and for out-of-range cells).
    pub closed spec fn cell(&self, l: LocalPos) -> Option<Block> {
        if local_in_range(l) && self.map@.contains_key(local_index(l) as u16) {
            Some(self.map@[local_index(l) as u16])
        } else {
            None
        }
    }

    /// The number of blocks in the chunk.
    pub closed spec fn size(&self) -> nat {
        self.map@.len()
    }

    /// The handle of the chunk's current render mesh; `None` when the chunk
    /// must be meshed again.
    pub closed spec fn mesh(&self) -> Option<u64> {
        self.mesh
    }

    proof fn lemma_cell_keys(&self, l: LocalPos, m: LocalPos)
        requires
            local_in_range(l),
            local_in_range(m),
            l != m,
        ensures
            local_index(l) as u16 != local_index(m) as u16,
    {
        lemma_local_index(l);
        lemma_local_index(m);
    }

    /// An empty chunk with no mesh.
    pub fn new() -> (r: Chunk)
        ensures
            r.wf(),
            forall|l: LocalPos| r.cell(l) is None,
            r.size() == 0,
            r.mesh() is None,
    {
        let r = Chunk { map: HashMap::new(), mesh: None };
        assert(r.map@ =~= Map::empty());
        r
    }

    /// The block at a cell of the chunk.
    pub fn get(&self, l: LocalPos) -> (r: Option<Block>)
        requires
            local_in_range(l),
        ensures
            r == self.cell(l),
    {
        let k = cell_key(l);
        match self.map.get(&k) {
            Some(b) => Some(*b),
            None => None,
        }
    }

    /// The number of blocks in the chunk.
    pub fn len(&self) -> (r: usize)
        ensures
            r == self.size(),
    {
        self.map.len()
    }

    /// The handle of the chunk's current render mesh.
    pub fn mesh_handle(&self) -> (r: Option<u64>)
        ensures
            r == self.mesh(),
    {
        self.mesh
    }

    /// Records (or, with `None`, forgets) the chunk's render mesh.
    pub fn set_mesh(&mut self, handle: Option<u64>)
        requires
            old(self).wf(),
        ensures
            final(self).wf(),
            final(self).mesh() == handle,
            final(self).size() == old(self).size(),
            forall|l: LocalPos| final(self).cell(l) == old(self).cell(l),
    {
        self.mesh = handle;
    }

    /// Puts a block in a cell, replacing what was there. The mesh is kept.
    pub fn insert(&mut self, l: LocalPos, b: Block) -> (prev: Option<Block>)
        requires
            old(self).wf(),
            local_in_range(l),
        ensures
            final(self).wf(),
            prev == old(self).cell(l),
            forall|m: LocalPos| #[trigger] final(self).cell(m) == if m == l {
                Some(b)
            } else {
                old(self).cell(m)
            },
            final(self).size() == old(self).size() + if prev is None {
                1nat
            } else {
                0nat
            },
            final(self).mesh() == old(self).mesh(),
    {
        let k = cell_key(l);
        let prev = self.map.insert(k, b);
        proof {
            assert forall|m: LocalPos| #[trigger] self.cell(m) == if m == l {
                Some(b)
            } else {
                old(self).cell(m)
            } by {
                if local_in_range(m) && m != l {
                    self.lemma_cell_keys(l, m);
                }
            }
        }
        prev
    }

    /// Empties a cell, returning what was there. The mesh is kept.
    pub fn remove(&mut self, l: LocalPos) -> (prev: Option<Block>)
        requires
            old(self).wf(),
            local_in_range(l),
        ensures
            final(self).wf(),
            prev == old(self).cell(l),
            forall|m: LocalPos| #[trigger] final(self).cell(m) == if m == l {
                None
            } else {
                old(self).cell(m)
            },
            final(self).size() + if prev is None {
                0nat
            } else {
                1nat
            } == old(self).size(),
            final(self).mesh() == old(self).mesh(),
    {
        let k = cell_key(l);
        let prev = self.map.remove(&k);
        proof {
            assert forall|m: LocalPos| #[trigger] self.cell(m) == if m == l {
                None
            } else {
                old(self).cell(m)
            } by {
                if local_in_range(m) && m != l {
                    self.lemma_cell_keys(l, m);
                }
            }
        }
        prev
    }
}

} // verus!
