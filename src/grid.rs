//! The sparse, unbounded grid of bytes, stored as 8×8 chunks.
use vstd::prelude::*;

use std::collections::HashMap;

use crate::cells::{array_rows, element, set_element, zeroed, ByteArray};
use crate::position::Position;

verus! {

broadcast use vstd::std_specs::hash::group_hash_axioms;

/// The side of a square chunk, in cells.
pub const CHUNK_LENGTH: usize = 8;

/// The coordinate of a chunk: a cell's coordinate divided by the chunk length.
pub type ChunkCoord = (isize, isize);

/// A cell's place inside its chunk: column, then row.
pub type ChunkOffset = (usize, usize);

/// A byte store over all positions of the plane.
pub trait Grid: Sized {
    /// The invariant the store keeps between operations.
    spec fn well_formed(&self) -> bool;

    /// The byte at a position; cells never written hold zero.
    spec fn cell(&self, p: Position) -> u8;

    fn get(&self, pos: &Position) -> (r: u8)
        requires
            self.well_formed(),
        ensures
            r == self.cell(*pos),
    ;

    /// Writes `value` at `pos` and returns the byte that was there.
    fn set(&mut self, pos: &Position, value: u8) -> (r: u8)
        requires
            old(self).well_formed(),
        ensures
            final(self).well_formed(),
            r == old(self).cell(*pos),
            forall|q: Position| #[trigger]
                final(self).cell(q) == if q == *pos {
                    value
                } else {
                    old(self).cell(q)
                },
    ;
}

/// Whether a byte counts as occupied.
pub open spec fn nz(b: u8) -> nat {
    if b != 0 {
        1
    } else {
        0
    }
}

/// The number of non-zero bytes in a sequence.
pub open spec fn count_row(s: Seq<u8>) -> nat
    decreases s.len(),
{
    if s.len() == 0 {
        0
    } else {
        count_row(s.drop_last()) + nz(s.last())
    }
}

/// The number of non-zero bytes over all rows.
pub open spec fn count_rows(rows: Seq<Seq<u8>>) -> nat
    decreases rows.len(),
{
    if rows.len() == 0 {
        0
    } else {
        count_rows(rows.drop_last()) + count_row(rows.last())
    }
}

proof fn lemma_count_row_update(s: Seq<u8>, j: int, v: u8)
    requires
        0 <= j < s.len(),
    ensures
        count_row(s.update(j, v)) + nz(s[j]) == count_row(s) + nz(v),
    decreases s.len(),
{
    let t = s.update(j, v);
    if j < s.len() - 1 {
        assert(t.drop_last() =~= s.drop_last().update(j, v));
        lemma_count_row_update(s.drop_last(), j, v);
    } else {
        assert(t.drop_last() =~= s.drop_last());
    }
}

proof fn lemma_count_rows_update(rows: Seq<Seq<u8>>, i: int, row: Seq<u8>)
    requires
        0 <= i < rows.len(),
    ensures
        count_rows(rows.update(i, row)) + count_row(rows[i]) == count_rows(rows) + count_row(row),
    decreases rows.len(),
{
    let t = rows.update(i, row);
    if i < rows.len() - 1 {
        assert(t.drop_last() =~= rows.drop_last().update(i, row));
        lemma_count_rows_update(rows.drop_last(), i, row);
    } else {
        assert(t.drop_last() =~= rows.drop_last());
    }
}

proof fn lemma_count_row_bounds(s: Seq<u8>)
    ensures
        count_row(s) <= s.len(),
        count_row(s) == 0 <==> forall|j: int| 0 <= j < s.len() ==> s[j] == 0,
    decreases s.len(),
{
    if s.len() > 0 {
        lemma_count_row_bounds(s.drop_last());
        if count_row(s) == 0 {
            assert forall|j: int| 0 <= j < s.len() implies s[j] == 0 by {
                if j < s.len() - 1 {
                    assert(s[j] == s.drop_last()[j]);
                }
            }
        }
        if forall|j: int| 0 <= j < s.len() ==> s[j] == 0 {
            assert forall|j: int| 0 <= j < s.drop_last().len() implies s.drop_last()[j] == 0 by {
                assert(s.drop_last()[j] == s[j]);
            }
        }
    }
}

proof fn lemma_count_rows_bounds(rows: Seq<Seq<u8>>)
    requires
        forall|i: int| 0 <= i < rows.len() ==> #[trigger] rows[i].len() == CHUNK_LENGTH,
    ensures
        count_rows(rows) <= rows.len() * CHUNK_LENGTH,
        count_rows(rows) == 0 <==> forall|i: int, j: int|
            0 <= i < rows.len() && 0 <= j < CHUNK_LENGTH ==> #[trigger] rows[i][j] == 0,
    decreases rows.len(),
{
    if rows.len() > 0 {
        let init = rows.drop_last();
        assert forall|i: int| 0 <= i < init.len() implies #[trigger] init[i].len() == CHUNK_LENGTH by {
            assert(init[i] == rows[i]);
        }
        lemma_count_rows_bounds(init);
        lemma_count_row_bounds(rows.last());
        assert(count_rows(rows) <= rows.len() * CHUNK_LENGTH) by (nonlinear_arith)
            requires
                count_rows(rows) == count_rows(init) + count_row(rows.last()),
                count_rows(init) <= init.len() * CHUNK_LENGTH,
                count_row(rows.last()) <= CHUNK_LENGTH,
                init.len() + 1 == rows.len(),
        ;
        if count_rows(rows) == 0 {
            assert forall|i: int, j: int|
                0 <= i < rows.len() && 0 <= j < CHUNK_LENGTH implies #[trigger] rows[i][j] == 0 by {
                if i < rows.len() - 1 {
                    assert(init[i] == rows[i]);
                    assert(init[i][j] == 0);
                } else {
                    assert(rows.last()[j] == 0);
                }
            }
        }
        if forall|i: int, j: int|
            0 <= i < rows.len() && 0 <= j < CHUNK_LENGTH ==> #[trigger] rows[i][j] == 0 {
            assert forall|i: int, j: int|
                0 <= i < init.len() && 0 <= j < CHUNK_LENGTH implies #[trigger] init[i][j] == 0 by {
                assert(init[i] == rows[i]);
                assert(rows[i][j] == 0);
            }
            assert forall|j: int| 0 <= j < rows.last().len() implies rows.last()[j] == 0 by {
                assert(rows[rows.len() - 1][j] == 0);
            }
        }
    }
}

/// An 8×8 block of cells together with the number of its non-zero cells.
pub struct Chunk {
    cells: ByteArray,
    non_zero_count: usize,
}

impl Chunk {
    /// The chunk's rows; row `r`, column `c` holds the cell at offset `(c, r)`.
    pub closed spec fn rows(&self) -> Seq<Seq<u8>> {
        array_rows(self.cells)
    }

    pub closed spec fn count(&self) -> nat {
        self.non_zero_count as nat
    }

    pub closed spec fn wf(&self) -> bool {
        &&& self.rows().len() == CHUNK_LENGTH
        &&& forall|i: int| 0 <= i < CHUNK_LENGTH ==> #[trigger] self.rows()[i].len() == CHUNK_LENGTH
        &&& self.non_zero_count == count_rows(self.rows())
    }

    /// The byte at an offset inside the chunk.
    pub closed spec fn at(&self, offset: (int, int)) -> u8 {
        self.rows()[offset.1][offset.0]
    }

    /// A chunk whose cells are all zero.
    pub fn new() -> (r: Chunk)
        ensures
            r.wf(),
            r.count() == 0,
            forall|c: int, w: int| 0 <= c < CHUNK_LENGTH && 0 <= w < CHUNK_LENGTH ==> #[trigger] r.at((c, w)) == 0,
    {
        let r = Chunk { cells: zeroed(CHUNK_LENGTH, CHUNK_LENGTH), non_zero_count: 0 };
        proof {
            lemma_count_rows_bounds(r.rows());
        }
        r
    }

    pub fn get(&self, offset: &ChunkOffset) -> (r: u8)
        requires
            self.wf(),
            offset.0 < CHUNK_LENGTH,
            offset.1 < CHUNK_LENGTH,
        ensures
            r == self.at((offset.0 as int, offset.1 as int)),
    {
        element(&self.cells, offset.1, offset.0)
    }

    /// Writes one cell, keeps the count of non-zero cells, and returns the
    /// byte that was there.
    pub fn set(&mut self, offset: &ChunkOffset, value: u8) -> (r: u8)
        requires
            old(self).wf(),
            offset.0 < CHUNK_LENGTH,
            offset.1 < CHUNK_LENGTH,
        ensures
            final(self).wf(),
            r == old(self).at((offset.0 as int, offset.1 as int)),
            forall|c: int, w: int|
                0 <= c < CHUNK_LENGTH && 0 <= w < CHUNK_LENGTH ==> #[trigger] final(self).at((c, w))
                    == if c == offset.0 && w == offset.1 {
                    value
                } else {
                    old(self).at((c, w))
                },
    {
        let ghost rows0 = self.rows();
        let old_value = element(&self.cells, offset.1, offset.0);
        set_element(&mut self.cells, offset.1, offset.0, value);
        proof {
            let row0 = rows0[offset.1 as int];
            lemma_count_row_update(row0, offset.0 as int, value);
            lemma_count_rows_update(rows0, offset.1 as int, row0.update(offset.0 as int, value));
            lemma_count_rows_bounds(self.rows());
        }
        if old_value == 0 && value != 0 {
            self.non_zero_count = self.non_zero_count + 1;
        } else if old_value != 0 && value == 0 {
            self.non_zero_count = self.non_zero_count - 1;
        }
        proof {
            assert forall|c: int, w: int|
                0 <= c < CHUNK_LENGTH && 0 <= w < CHUNK_LENGTH implies #[trigger] self.at((c, w))
                    == if c == offset.0 && w == offset.1 {
                    value
                } else {
                    old(self).at((c, w))
                } by {
                if w == offset.1 {
                    assert(self.rows()[w] == rows0[w].update(offset.0 as int, value));
                }
            }
        }
        old_value
    }

    pub fn is_empty(&self) -> (r: bool)
        requires
            self.wf(),
        ensures
            r == (self.count() == 0),
            r == forall|c: int, w: int|
                0 <= c < CHUNK_LENGTH && 0 <= w < CHUNK_LENGTH ==> #[trigger] self.at((c, w)) == 0,
    {
        proof {
            lemma_count_rows_bounds(self.rows());
            assert forall|c: int, w: int|
                0 <= c < CHUNK_LENGTH && 0 <= w < CHUNK_LENGTH implies (#[trigger] self.at((c, w)) == 0
                    <==> self.rows()[w][c] == 0) by {}
            if forall|c: int, w: int|
                0 <= c < CHUNK_LENGTH && 0 <= w < CHUNK_LENGTH ==> #[trigger] self.at((c, w)) == 0 {
                assert forall|i: int, j: int|
                    0 <= i < CHUNK_LENGTH && 0 <= j < CHUNK_LENGTH implies #[trigger] self.rows()[i][j] == 0 by {
                    assert(self.at((j, i)) == 0);
                }
            }
        }
        self.non_zero_count == 0
    }
}

/// The coordinate of the chunk that holds a position (floor division).
pub open spec fn chunk_of(p: Position) -> (int, int) {
    (p.x as int / CHUNK_LENGTH as int, p.y as int / CHUNK_LENGTH as int)
}

/// A position's offset inside its chunk (Euclidean remainder, never negative).
pub open spec fn offset_of(p: Position) -> (int, int) {
    (p.x as int % CHUNK_LENGTH as int, p.y as int % CHUNK_LENGTH as int)
}

/// Splits a position into its chunk coordinate and its offset in that chunk.
pub fn position_to_chunk(pos: &Position) -> (r: (ChunkCoord, ChunkOffset))
    ensures
        (r.0.0 as int, r.0.1 as int) == chunk_of(*pos),
        (r.1.0 as int, r.1.1 as int) == offset_of(*pos),
        r.1.0 < CHUNK_LENGTH,
        r.1.1 < CHUNK_LENGTH,
{
    let len = CHUNK_LENGTH as isize;
    let cx = match pos.x.checked_div_euclid(len) {
        Some(v) => v,
        None => 0,
    };
    let cy = match pos.y.checked_div_euclid(len) {
        Some(v) => v,
        None => 0,
    };
    let ox = match pos.x.checked_rem_euclid(len) {
        Some(v) => v,
        None => 0,
    };
    let oy = match pos.y.checked_rem_euclid(len) {
        Some(v) => v,
        None => 0,
    };
    ((cx, cy), (ox as usize, oy as usize))
}

/// The map key of a chunk coordinate: the two parts packed into one integer.
pub open spec fn key_of(c: (int, int)) -> int {
    c.0 * 0x1_0000_0000_0000_0000 + c.1
}

pub open spec fn coord_in_range(c: (int, int)) -> bool {
    &&& -0x1000_0000_0000_0000 <= c.0 < 0x1000_0000_0000_0000
    &&& -0x1000_0000_0000_0000 <= c.1 < 0x1000_0000_0000_0000
}

proof fn lemma_chunk_of_in_range(p: Position)
    ensures
        coord_in_range(chunk_of(p)),
        0 <= offset_of(p).0 < CHUNK_LENGTH,
        0 <= offset_of(p).1 < CHUNK_LENGTH,
{
}

proof fn lemma_key_injective(a: (int, int), b: (int, int))
    requires
        coord_in_range(a),
        coord_in_range(b),
        key_of(a) == key_of(b),
    ensures
        a == b,
{
    assert(a.0 == b.0) by (nonlinear_arith)
        requires
            a.0 * 0x1_0000_0000_0000_0000 + a.1 == b.0 * 0x1_0000_0000_0000_0000 + b.1,
            -0x1000_0000_0000_0000 <= a.1 < 0x1000_0000_0000_0000,
            -0x1000_0000_0000_0000 <= b.1 < 0x1000_0000_0000_0000,
    ;
}

fn chunk_key(c: ChunkCoord) -> (r: i128)
    requires
        coord_in_range((c.0 as int, c.1 as int)),
    ensures
        r == key_of((c.0 as int, c.1 as int)),
{
    (c.0 as i128) * 0x1_0000_0000_0000_0000i128 + (c.1 as i128)
}

/// The grid as a hash map from chunk coordinates to chunks. Only chunks that
/// hold a non-zero cell are stored.
pub struct HashGrid {
    chunks: HashMap<i128, Chunk>,
}

impl HashGrid {
    /// Whether the chunk with this coordinate is stored.
    pub closed spec fn stores(&self, c: (int, int)) -> bool {
        self.chunks@.contains_key(key_of(c) as i128)
    }

    /// The counter a stored chunk keeps of its non-zero cells.
    pub closed spec fn chunk_counter(&self, c: (int, int)) -> nat {
        self.chunks@[key_of(c) as i128].count()
    }

    /// The number of non-zero cells a stored chunk actually holds.
    pub closed spec fn chunk_nonzero(&self, c: (int, int)) -> nat {
        count_rows(self.chunks@[key_of(c) as i128].rows())
    }

    /// The number of stored chunks.
    pub closed spec fn chunk_total(&self) -> nat {
        self.chunks@.len()
    }

    /// An empty grid: every cell zero, no chunk stored.
    pub fn new() -> (r: HashGrid)
        ensures
            r.well_formed(),
            r.chunk_total() == 0,
            forall|q: Position| #[trigger] r.cell(q) == 0,
    {
        HashGrid { chunks: HashMap::new() }
    }

    /// Whether the chunk holding `pos` is stored.
    pub fn has_chunk(&self, pos: &Position) -> (r: bool)
        ensures
            r == self.stores(chunk_of(*pos)),
    {
        let (coord, _offset) = position_to_chunk(pos);
        proof {
            lemma_chunk_of_in_range(*pos);
        }
        self.chunks.contains_key(&chunk_key(coord))
    }

    /// The number of stored chunks.
    pub fn chunk_count(&self) -> (r: usize)
        ensures
            r == self.chunk_total(),
    {
        self.chunks.len()
    }
}

proof fn lemma_stored_chunk_has_nonzero(g: &HashGrid, p: Position) -> (q: Position)
    requires
        g.well_formed(),
        g.stores(chunk_of(p)),
    ensures
        chunk_of(q) == chunk_of(p),
        g.cell(q) != 0,
{
    let c = chunk_of(p);
    let k = key_of(c) as i128;
    let chunk = g.chunks@[k];
    lemma_count_rows_bounds(chunk.rows());
    let (i, j) = choose|i: int, j: int|
        0 <= i < CHUNK_LENGTH && 0 <= j < CHUNK_LENGTH && #[trigger] chunk.rows()[i][j] != 0;
    let x = c.0 * 8 + j;
    let y = c.1 * 8 + i;
    assert(isize::MIN <= x <= isize::MAX && isize::MIN <= y <= isize::MAX) by {
        assert(isize::MIN % 8 == 0 && (isize::MAX + 1) % 8 == 0);
    }
    let q = Position { x: x as isize, y: y as isize };
    assert(chunk_of(q) == c && offset_of(q) == (j, i));
    assert(chunk.at((j, i)) == chunk.rows()[i][j]);
    q
}

/// Sparsity: after any sequence of writes, a chunk is stored exactly while
/// it holds a non-zero cell, its counter equals the number of its non-zero
/// cells, and a grid whose cells are all zero stores no chunk at all. So the
/// cells kept in storage are exactly the non-zero ones, chunk by chunk.
pub proof fn lemma_sparse_storage(g: &HashGrid)
    requires
        g.well_formed(),
    ensures
        forall|c: (int, int)| #[trigger]
            g.stores(c) ==> g.chunk_counter(c) == g.chunk_nonzero(c) && g.chunk_nonzero(c) >= 1,
        forall|p: Position| #[trigger] g.cell(p) != 0 ==> g.stores(chunk_of(p)),
        forall|p: Position| #[trigger]
            g.stores(chunk_of(p)) <==> exists|q: Position| chunk_of(q) == chunk_of(p) && g.cell(q) != 0,
        (forall|p: Position| #[trigger] g.cell(p) == 0) ==> g.chunk_total() == 0,
{
    assert forall|p: Position| #[trigger]
        g.stores(chunk_of(p)) <==> exists|q: Position| chunk_of(q) == chunk_of(p) && g.cell(q) != 0 by {
        if g.stores(chunk_of(p)) {
            let q = lemma_stored_chunk_has_nonzero(g, p);
        }
        if exists|q: Position| chunk_of(q) == chunk_of(p) && g.cell(q) != 0 {
            let q = choose|q: Position| chunk_of(q) == chunk_of(p) && g.cell(q) != 0;
            assert(g.stores(chunk_of(q)));
        }
    }
    if (forall|p: Position| #[trigger] g.cell(p) == 0) && g.chunk_total() != 0 {
        if !(exists|k: i128| g.chunks@.dom().contains(k)) {
            assert(g.chunks@.dom() =~= Set::<i128>::empty());
        }
        let k = choose|k: i128| g.chunks@.dom().contains(k);
        assert(g.chunks@.contains_key(k));
        let p = choose|p: Position| key_of(chunk_of(p)) as i128 == k;
        assert(g.stores(chunk_of(p)));
        let q = lemma_stored_chunk_has_nonzero(g, p);
        assert(g.cell(q) == 0);
    }
}

impl Grid for HashGrid {
    closed spec fn well_formed(&self) -> bool {
        forall|k: i128| #[trigger]
            self.chunks@.contains_key(k) ==> self.chunks@[k].wf() && self.chunks@[k].count() > 0 && exists|
                p: Position,
            | key_of(chunk_of(p)) as i128 == k
    }

    closed spec fn cell(&self, p: Position) -> u8 {
        let k = key_of(chunk_of(p)) as i128;
        if self.chunks@.contains_key(k) {
            self.chunks@[k].at(offset_of(p))
        } else {
            0
        }
    }

    fn get(&self, pos: &Position) -> (r: u8) {
        let (coord, offset) = position_to_chunk(pos);
        proof {
            lemma_chunk_of_in_range(*pos);
        }
        match self.chunks.get(&chunk_key(coord)) {
            Some(chunk) => chunk.get(&offset),
            None => 0,
        }
    }

    fn set(&mut self, pos: &Position, value: u8) -> (r: u8) {
        let (coord, offset) = position_to_chunk(pos);
        proof {
            lemma_chunk_of_in_range(*pos);
        }
        let key = chunk_key(coord);
        let ghost before = self.chunks@;
        let mut chunk = match self.chunks.remove(&key) {
            Some(c) => c,
            None => Chunk::new(),
        };
        let old_value = chunk.set(&offset, value);
        if !chunk.is_empty() {
            self.chunks.insert(key, chunk);
        }
        proof {
            assert forall|k: i128| #[trigger] self.chunks@.contains_key(k) implies self.chunks@[k].wf()
                && self.chunks@[k].count() > 0 && exists|p: Position| key_of(chunk_of(p)) as i128 == k by {
                if k == key {
                    assert(key_of(chunk_of(*pos)) as i128 == k);
                } else {
                    assert(before.contains_key(k));
                }
            }
            assert forall|q: Position| #[trigger]
                self.cell(q) == if q == *pos {
                    value
                } else {
                    old(self).cell(q)
                } by {
                lemma_chunk_of_in_range(q);
                if chunk_of(q) != chunk_of(*pos) {
                    if key_of(chunk_of(q)) == key_of(chunk_of(*pos)) {
                        lemma_key_injective(chunk_of(q), chunk_of(*pos));
                    }
                    assert(key_of(chunk_of(q)) as i128 != key);
                    assert(self.chunks@.contains_key(key_of(chunk_of(q)) as i128) == before.contains_key(
                        key_of(chunk_of(q)) as i128,
                    ));
                } else {
                    let (qx, qy) = (q.x as int, q.y as int);
                    let (px, py) = (pos.x as int, pos.y as int);
                    if q != *pos {
                        assert(offset_of(q) != offset_of(*pos)) by (nonlinear_arith)
                            requires
                                qx / 8 == px / 8,
                                qy / 8 == py / 8,
                                qx != px || qy != py,
                                offset_of(q) == (qx % 8, qy % 8),
                                offset_of(*pos) == (px % 8, py % 8),
                        ;
                    }
                    assert(chunk.at(offset_of(q)) == if q == *pos {
                        value
                    } else {
                        old(self).cell(q)
                    });
                }
            }
        }
        old_value
    }
}

} // verus!
