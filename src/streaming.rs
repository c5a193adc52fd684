//! Chunk streaming: keeping resident every chunk of the planar render window
//! around the player's chunk, generating the ones that are missing.
use vstd::prelude::*;

use crate::coords::{
    chunk_coord, global_coord, global_fits, lemma_decomposition_unique, local_in_range, BlockPos,
    ChunkPos, LocalPos, CHUNK_VOLUME,
};
use crate::terrain::{generate_chunk, terrain_block, CHUNK_COLUMNS};
use crate::world::{planar_neighbor, WorldMap};

verus! {

/// The default render radius, in chunks.
pub const CHUNK_RENDER_DISTANCE_RADIUS: i32 = 1;

/// The largest render radius the loader accepts.
pub const MAX_RENDER_RADIUS: i32 = 64;

/// Bound on the x and z components of a chunk the loader centres a window
/// on, so that every cell of the window has `i32` global coordinates.
pub const STREAM_LIMIT: i32 = 134000000;

/// The first `n` chunks, by increasing z, of the window row at x offset `dx`.
pub open spec fn window_row(p: ChunkPos, r: int, dx: int, n: int) -> Seq<ChunkPos>
    decreases n,
{
    if n <= 0 {
        Seq::empty()
    } else {
        window_row(p, r, dx, n - 1).push(ChunkPos { x: (p.x + dx) as i32, y: 0, z: (p.z - r + n - 1) as i32 })
    }
}

/// The first `n` rows, by increasing x, of the window of radius `r` around `p`.
pub open spec fn window_rows(p: ChunkPos, r: int, n: int) -> Seq<ChunkPos>
    decreases n,
{
    if n <= 0 {
        Seq::empty()
    } else {
        window_rows(p, r, n - 1) + window_row(p, r, n - 1 - r, 2 * r + 1)
    }
}

/// The chunks `(p.x + dx, 0, p.z + dz)` for `dx`, `dz` in `[-r, r]`, x
/// outer and z inner.
pub open spec fn render_window(p: ChunkPos, r: int) -> Seq<ChunkPos> {
    window_rows(p, r, 2 * r + 1)
}

/// The chunks of `s` that are not resident in `w`, in order.
pub open spec fn missing(w: &WorldMap, s: Seq<ChunkPos>) -> Seq<ChunkPos>
    decreases s.len(),
{
    if s.len() == 0 {
        Seq::empty()
    } else if w.resident(s.last()) {
        missing(w, s.drop_last())
    } else {
        missing(w, s.drop_last()).push(s.last())
    }
}

/// Whether some chunk of `s` is `d` or one of its neighbours along x or z.
pub open spec fn touched_by(s: Seq<ChunkPos>, d: ChunkPos) -> bool {
    exists|j: int| 0 <= j < s.len() && (s[j] == d || planar_neighbor(#[trigger] s[j], d))
}

/// A chunk the loader may centre a window on.
pub open spec fn in_stream_range(p: ChunkPos) -> bool {
    -STREAM_LIMIT <= p.x <= STREAM_LIMIT && -STREAM_LIMIT <= p.z <= STREAM_LIMIT
}

proof fn lemma_missing_push(w: &WorldMap, s: Seq<ChunkPos>, c: ChunkPos)
    ensures
        missing(w, s.push(c)) == if w.resident(c) {
            missing(w, s)
        } else {
            missing(w, s).push(c)
        },
{
    assert(s.push(c).drop_last() =~= s);
}

/// The chunks missing from `s` are, each once, the chunks of `s` that are not
/// resident.
pub proof fn lemma_missing(w: &WorldMap, s: Seq<ChunkPos>)
    ensures
        forall|c: ChunkPos| #[trigger] missing(w, s).contains(c) <==> (s.contains(c) && !w.resident(c)),
        s.no_duplicates() ==> missing(w, s).no_duplicates(),
    decreases s.len(),
{
    if s.len() > 0 {
        let t = s.drop_last();
        let x = s.last();
        lemma_missing(w, t);
        assert(s =~= t.push(x));
        let m = missing(w, t);
        assert forall|c: ChunkPos| #[trigger] s.contains(c) <==> (t.contains(c) || c == x) by {
            if s.contains(c) && c != x {
                let i = choose|i: int| 0 <= i < s.len() && s[i] == c;
                assert(t[i] == c);
            }
            if t.contains(c) {
                let i = choose|i: int| 0 <= i < t.len() && t[i] == c;
                assert(s[i] == c);
            }
            if c == x {
                assert(s[s.len() - 1] == c);
            }
        }
        if !w.resident(x) {
            assert forall|c: ChunkPos| #[trigger] m.push(x).contains(c) <==> (m.contains(c) || c == x) by {
                if m.push(x).contains(c) && c != x {
                    let i = choose|i: int| 0 <= i < m.len() + 1 && m.push(x)[i] == c;
                    assert(m[i] == c);
                }
                if m.contains(c) {
                    let i = choose|i: int| 0 <= i < m.len() && m[i] == c;
                    assert(m.push(x)[i] == c);
                }
                if c == x {
                    assert(m.push(x)[m.len() as int] == c);
                }
            }
            if s.no_duplicates() {
                assert(t.no_duplicates());
                assert(!t.contains(x)) by {
                    if t.contains(x) {
                        let i = choose|i: int| 0 <= i < t.len() && t[i] == x;
                        assert(s[i] == s[s.len() - 1]);
                    }
                }
                assert(!m.contains(x));
                assert forall|i: int, j: int|
                    0 <= i < m.len() + 1 && 0 <= j < m.len() + 1 && i != j implies m.push(x)[i]
                        != m.push(x)[j] by {
                    if i < m.len() && j < m.len() {
                        assert(m[i] != m[j]);
                    } else if i < m.len() {
                        assert(m.contains(m[i]));
                    } else {
                        assert(m.contains(m[j]));
                    }
                }
            }
        } else {
            if s.no_duplicates() {
                assert(t.no_duplicates());
            }
        }
    }
}

/// The chunks of the render window of radius `radius` around `p` that are
/// not resident, in window order.
pub fn chunks_to_load(world: &WorldMap, p: ChunkPos, radius: i32) -> (r: Vec<ChunkPos>)
    requires
        0 <= radius <= MAX_RENDER_RADIUS,
        in_stream_range(p),
    ensures
        r@ == missing(world, render_window(p, radius as int)),
{
    let mut out: Vec<ChunkPos> = Vec::new();
    let side: i32 = 2 * radius + 1;
    let mut a: i32 = 0;
    while a < side
        invariant
            0 <= a <= side,
            side == 2 * radius + 1,
            0 <= radius <= MAX_RENDER_RADIUS,
            in_stream_range(p),
            out@ == missing(world, window_rows(p, radius as int, a as int)),
        decreases side - a,
    {
        let mut b: i32 = 0;
        while b < side
            invariant
                0 <= a < side,
                0 <= b <= side,
                side == 2 * radius + 1,
                0 <= radius <= MAX_RENDER_RADIUS,
                in_stream_range(p),
                out@ == missing(
                    world,
                    window_rows(p, radius as int, a as int) + window_row(p, radius as int, a - radius, b as int),
                ),
            decreases side - b,
        {
            let c = ChunkPos { x: p.x + a - radius, y: 0, z: p.z + b - radius };
            proof {
                let rows = window_rows(p, radius as int, a as int);
                let row = window_row(p, radius as int, a - radius, b as int);
                assert(window_row(p, radius as int, a - radius, b + 1) == row.push(c));
                assert(rows + row.push(c) =~= (rows + row).push(c));
                lemma_missing_push(world, rows + row, c);
            }
            if !world.is_resident(c) {
                out.push(c);
            }
            b = b + 1;
        }
        proof {
            assert(window_rows(p, radius as int, a + 1) == window_rows(p, radius as int, a as int)
                + window_row(p, radius as int, a - radius, side as int));
        }
        a = a + 1;
    }
    out
}

/// `a` comes before `b` by x, then by z.
pub open spec fn before(a: ChunkPos, b: ChunkPos) -> bool {
    a.x < b.x || (a.x == b.x && a.z < b.z)
}

proof fn lemma_window_row(p: ChunkPos, r: int, dx: int, n: int)
    requires
        0 <= n <= 2 * r + 1,
        0 <= r <= MAX_RENDER_RADIUS,
        -r <= dx <= r,
        in_stream_range(p),
    ensures
        window_row(p, r, dx, n).len() == n,
        forall|i: int| #![trigger window_row(p, r, dx, n)[i]] 0 <= i < n ==> window_row(p, r, dx, n)[i]
            == (ChunkPos { x: (p.x + dx) as i32, y: 0, z: (p.z - r + i) as i32 }),
    decreases n,
{
    if n > 0 {
        lemma_window_row(p, r, dx, n - 1);
    }
}

proof fn lemma_window_rows(p: ChunkPos, r: int, n: int)
    requires
        0 <= n <= 2 * r + 1,
        0 <= r <= MAX_RENDER_RADIUS,
        in_stream_range(p),
    ensures
        forall|i: int| #![trigger window_rows(p, r, n)[i]] 0 <= i < window_rows(p, r, n).len() ==> {
            let c = window_rows(p, r, n)[i];
            &&& c.y == 0
            &&& p.x - r <= c.x <= p.x - r + n - 1
            &&& p.z - r <= c.z <= p.z + r
        },
        forall|i: int, j: int|
            0 <= i < j < window_rows(p, r, n).len() ==> before(
                #[trigger] window_rows(p, r, n)[i],
                #[trigger] window_rows(p, r, n)[j],
            ),
    decreases n,
{
    if n > 0 {
        lemma_window_rows(p, r, n - 1);
        lemma_window_row(p, r, n - 1 - r, 2 * r + 1);
        let a = window_rows(p, r, n - 1);
        let b = window_row(p, r, n - 1 - r, 2 * r + 1);
        assert(window_rows(p, r, n) == a + b);
        assert forall|i: int, j: int|
            0 <= i < j < (a + b).len() implies before(#[trigger] (a + b)[i], #[trigger] (a + b)[j]) by {
            if j < a.len() {
                assert(before(a[i], a[j]));
            } else if i < a.len() {
                assert(b[j - a.len()].x == p.x + n - 1 - r);
            } else {
                assert(b[i - a.len()].z < b[j - a.len()].z);
            }
        }
        assert forall|i: int| #![trigger (a + b)[i]] 0 <= i < (a + b).len() implies {
            let c = (a + b)[i];
            &&& c.y == 0
            &&& p.x - r <= c.x <= p.x - r + n - 1
            &&& p.z - r <= c.z <= p.z + r
        } by {
            if i < a.len() {
                assert((a + b)[i] == a[i]);
            } else {
                assert((a + b)[i] == b[i - a.len()]);
            }
        }
    }
}

/// The render window lists each chunk once, all at `y == 0` and within
/// `r` of `p` along x and z.
pub proof fn lemma_render_window(p: ChunkPos, r: int)
    requires
        0 <= r <= MAX_RENDER_RADIUS,
        in_stream_range(p),
    ensures
        render_window(p, r).no_duplicates(),
        forall|i: int| #![trigger render_window(p, r)[i]] 0 <= i < render_window(p, r).len() ==> {
            let c = render_window(p, r)[i];
            &&& c.y == 0
            &&& p.x - r <= c.x <= p.x + r
            &&& p.z - r <= c.z <= p.z + r
        },
{
    lemma_window_rows(p, r, 2 * r + 1);
    let w = render_window(p, r);
    assert forall|i: int, j: int| 0 <= i < w.len() && 0 <= j < w.len() && i != j implies w[i] != w[j] by {
        if i < j {
            assert(before(w[i], w[j]));
        } else {
            assert(before(w[j], w[i]));
        }
    }
}

/// Makes resident every chunk of the render window of radius `radius` around
/// `p`. The chunks that were missing are `missing(world, render_window(..))`,
/// which `chunks_to_load` returns; the `i`-th of them is generated from the
/// column variations `columns[i]` (see `terrain_block`). Every chunk made
/// resident is dirty, and so are its resident neighbours along x and z.
pub fn load_chunk_around_player(world: &mut WorldMap, p: ChunkPos, radius: i32, columns: &Vec<Vec<i32>>)
    requires
        old(world).wf(),
        0 <= radius <= MAX_RENDER_RADIUS,
        in_stream_range(p),
        columns@.len() == missing(old(world), render_window(p, radius as int)).len(),
        forall|i: int| 0 <= i < columns@.len() ==> #[trigger] columns@[i]@.len() == CHUNK_COLUMNS,
        old(world).counted_blocks() + CHUNK_VOLUME * columns@.len() <= u64::MAX,
        old(world).counted_chunks() + columns@.len() < u64::MAX,
    ensures
        final(world).wf(),
        forall|i: int|
            0 <= i < render_window(p, radius as int).len() ==> final(world).resident(
                #[trigger] render_window(p, radius as int)[i],
            ),
        forall|d: ChunkPos| #[trigger]
            final(world).resident(d) == (old(world).resident(d) || missing(
                old(world),
                render_window(p, radius as int),
            ).contains(d)),
        forall|i: int, l: LocalPos|
            0 <= i < columns@.len() && local_in_range(l) ==> #[trigger] final(world).block_at(
                global_coord(missing(old(world), render_window(p, radius as int))[i], l),
            ) == terrain_block(missing(old(world), render_window(p, radius as int))[i], columns@[i]@, l),
        forall|g: BlockPos|
            !missing(old(world), render_window(p, radius as int)).contains(chunk_coord(g))
                ==> #[trigger] final(world).block_at(g) == old(world).block_at(g),
        forall|d: ChunkPos|
            missing(old(world), render_window(p, radius as int)).contains(d)
                ==> #[trigger] final(world).dirty(d),
        forall|d: ChunkPos| #[trigger]
            final(world).mesh_of(d) == if touched_by(missing(old(world), render_window(p, radius as int)), d) {
                None
            } else {
                old(world).mesh_of(d)
            },
        final(world).resident_chunks() == old(world).resident_chunks() + missing(
            old(world),
            render_window(p, radius as int),
        ),
        final(world).counted_chunks() == old(world).counted_chunks() + columns@.len(),
        old(world).counted_blocks() <= final(world).counted_blocks() <= old(world).counted_blocks()
            + CHUNK_VOLUME * columns@.len(),
{
    let todo = chunks_to_load(world, p, radius);
    let ghost window = render_window(p, radius as int);
    let ghost w0 = *old(world);
    proof {
        lemma_render_window(p, radius as int);
        lemma_missing(old(world), window);
        assert forall|i: int| 0 <= i < todo@.len() implies {
            let c = #[trigger] todo@[i];
            &&& c.y == 0
            &&& -STREAM_LIMIT - MAX_RENDER_RADIUS <= c.x <= STREAM_LIMIT + MAX_RENDER_RADIUS
            &&& -STREAM_LIMIT - MAX_RENDER_RADIUS <= c.z <= STREAM_LIMIT + MAX_RENDER_RADIUS
        } by {
            assert(todo@.contains(todo@[i]));
            let j = choose|j: int| 0 <= j < window.len() && window[j] == todo@[i];
        }
    }
    proof {
        assert(todo@.take(0) =~= Seq::<ChunkPos>::empty());
        assert(w0.resident_chunks() + todo@.take(0) =~= w0.resident_chunks());
    }
    let mut i: usize = 0;
    while i < todo.len()
        invariant
            i <= todo@.len(),
            todo@ == missing(&w0, window),
            todo@.no_duplicates(),
            columns@.len() == todo@.len(),
            forall|k: int| 0 <= k < columns@.len() ==> #[trigger] columns@[k]@.len() == CHUNK_COLUMNS,
            forall|k: int| 0 <= k < todo@.len() ==> {
                let c = #[trigger] todo@[k];
                &&& c.y == 0
                &&& -STREAM_LIMIT - MAX_RENDER_RADIUS <= c.x <= STREAM_LIMIT + MAX_RENDER_RADIUS
                &&& -STREAM_LIMIT - MAX_RENDER_RADIUS <= c.z <= STREAM_LIMIT + MAX_RENDER_RADIUS
            },
            forall|c: ChunkPos| #[trigger] todo@.contains(c) ==> !w0.resident(c),
            world.wf(),
            w0.counted_blocks() <= world.counted_blocks() <= w0.counted_blocks() + CHUNK_VOLUME * i,
            world.counted_chunks() == w0.counted_chunks() + i,
            w0.counted_blocks() + CHUNK_VOLUME * columns@.len() <= u64::MAX,
            w0.counted_chunks() + columns@.len() < u64::MAX,
            forall|d: ChunkPos| #[trigger]
                world.resident(d) == (w0.resident(d) || todo@.take(i as int).contains(d)),
            forall|k: int, l: LocalPos|
                0 <= k < i && local_in_range(l) ==> #[trigger] world.block_at(global_coord(todo@[k], l))
                    == terrain_block(todo@[k], columns@[k]@, l),
            forall|g: BlockPos|
                !todo@.take(i as int).contains(chunk_coord(g)) ==> #[trigger] world.block_at(g)
                    == w0.block_at(g),
            forall|k: int| 0 <= k < i ==> #[trigger] world.dirty(todo@[k]),
            forall|d: ChunkPos| #[trigger]
                world.mesh_of(d) == if touched_by(todo@.take(i as int), d) {
                    None
                } else {
                    w0.mesh_of(d)
                },
            world.resident_chunks() == w0.resident_chunks() + todo@.take(i as int),
        decreases todo@.len() - i,
    {
        let c = todo[i];
        let chunk = generate_chunk(c, &columns[i]);
        let ghost before = *world;
        proof {
            assert(todo@.contains(c));
            assert(!todo@.take(i as int).contains(c)) by {
                if todo@.take(i as int).contains(c) {
                    let k = choose|k: int| 0 <= k < i && #[trigger] todo@.take(i as int)[k] == c;
                    assert(todo@[k] == todo@[i as int]);
                }
            }
            assert(!world.resident(c));
            assert(CHUNK_VOLUME * i + CHUNK_VOLUME <= CHUNK_VOLUME * columns@.len()) by (nonlinear_arith)
                requires
                    i < columns@.len(),
            ;
        }
        let inserted = world.insert_chunk(c, chunk);
        proof {
            assert(inserted);
            assert forall|d: ChunkPos| #[trigger] todo@.take(i + 1).contains(d) <==> (todo@.take(
                i as int,
            ).contains(d) || d == c) by {
                if todo@.take(i + 1).contains(d) && d != c {
                    let k = choose|k: int| 0 <= k < i + 1 && #[trigger] todo@.take(i + 1)[k] == d;
                    assert(todo@.take(i as int)[k] == d);
                }
                if todo@.take(i as int).contains(d) {
                    let k = choose|k: int| 0 <= k < i && #[trigger] todo@.take(i as int)[k] == d;
                    assert(todo@.take(i + 1)[k] == d);
                }
                if d == c {
                    assert(todo@.take(i + 1)[i as int] == d);
                }
            }
            assert forall|k: int, l: LocalPos|
                0 <= k < i + 1 && local_in_range(l) implies #[trigger] world.block_at(
                    global_coord(todo@[k], l),
                ) == terrain_block(todo@[k], columns@[k]@, l) by {
                assert(global_fits(todo@[k], l));
                lemma_decomposition_unique(todo@[k], l);
                if k < i {
                    assert(todo@[k] != c);
                    assert(before.block_at(global_coord(todo@[k], l)) == terrain_block(todo@[k], columns@[k]@, l));
                }
            }
            assert forall|k: int| 0 <= k < i + 1 implies #[trigger] world.dirty(todo@[k]) by {
                if k < i {
                    assert(before.dirty(todo@[k]));
                }
            }
            let t0 = todo@.take(i as int);
            let t1 = todo@.take(i + 1);
            assert(t1 =~= t0.push(c));
            assert(world.resident_chunks() =~= w0.resident_chunks() + t1);
            assert forall|d: ChunkPos| #[trigger]
                world.mesh_of(d) == if touched_by(t1, d) {
                    None
                } else {
                    w0.mesh_of(d)
                } by {
                if touched_by(t0, d) {
                    let j = choose|j: int| 0 <= j < t0.len() && (t0[j] == d || planar_neighbor(#[trigger] t0[j], d));
                    assert(t1[j] == t0[j]);
                }
                if d == c || planar_neighbor(c, d) {
                    assert(t1[i as int] == c);
                }
                if touched_by(t1, d) && !touched_by(t0, d) {
                    let j = choose|j: int| 0 <= j < t1.len() && (t1[j] == d || planar_neighbor(#[trigger] t1[j], d));
                    if j < i {
                        assert(t0[j] == t1[j]);
                    }
                }
            }
        }
        i = i + 1;
    }
    proof {
        assert(todo@.take(i as int) =~= todo@);
        assert forall|k: int| 0 <= k < window.len() implies world.resident(#[trigger] window[k]) by {
            assert(window.contains(window[k]));
            if !w0.resident(window[k]) {
                assert(todo@.contains(window[k]));
            }
        }
        assert forall|d: ChunkPos| todo@.contains(d) implies #[trigger] world.dirty(d) by {
            let k = choose|k: int| 0 <= k < todo@.len() && todo@[k] == d;
            assert(world.dirty(todo@[k]));
        }
    }
}

} // verus!
