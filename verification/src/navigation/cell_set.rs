//! Sets of grid cells, kept in a hash set under a packed integer key.

use std::collections::HashSet;
use vstd::prelude::*;
use vstd::std_specs::hash::spec_hash_keys_iter;
use vstd::std_specs::iter::IteratorSpec;

verus! {

broadcast use vstd::std_specs::hash::group_hash_axioms;

/// The packed key of cell `(x, z)`: `x` in the high half, `z` in the low half.
pub open spec fn cell_key(x: i32, z: i32) -> u64 {
    (((x as u32) as u64) << 32u64) | ((z as u32) as u64)
}

pub open spec fn key_x(k: u64) -> i32 {
    ((k >> 32u64) as u32) as i32
}

pub open spec fn key_z(k: u64) -> i32 {
    (k as u32) as i32
}

pub proof fn lemma_key_roundtrip(x: i32, z: i32)
    ensures
        key_x(cell_key(x, z)) == x,
        key_z(cell_key(x, z)) == z,
{
    assert(((((((x as u32) as u64) << 32u64) | ((z as u32) as u64)) >> 32u64) as u32) as i32 == x) by (bit_vector);
    assert((((((x as u32) as u64) << 32u64) | ((z as u32) as u64)) as u32) as i32 == z) by (bit_vector);
}

pub proof fn lemma_cell_roundtrip(k: u64)
    ensures
        cell_key(key_x(k), key_z(k)) == k,
{
    assert((((((((k >> 32u64) as u32) as i32) as u32) as u64) << 32u64) | ((((k as u32) as i32) as u32) as u64)) == k) by (bit_vector);
}

/// Draining loses and invents nothing: when a batch is taken out of a set of
/// cells, each cell of the set is either in the batch or left behind, never
/// both, and the batch holds nothing else.
pub proof fn lemma_drain_partitions(before: Set<(i32, i32)>, batch: Seq<(i32, i32)>, after: Set<(i32, i32)>)
    requires
        forall|i: int| 0 <= i < batch.len() ==> before.contains(#[trigger] batch[i]),
        after == before.difference(batch.to_set()),
    ensures
        before == after.union(batch.to_set()),
        after.disjoint(batch.to_set()),
{
    assert forall|c: (i32, i32)| batch.to_set().contains(c) implies before.contains(c) by {
        let i = choose|i: int| 0 <= i < batch.len() && batch[i] == c;
        assert(before.contains(batch[i]));
    }
    assert(before =~= after.union(batch.to_set()));
}

/// The cells whose keys are in `keys`.
pub open spec fn cells_of(keys: Set<u64>) -> Set<(i32, i32)> {
    Set::new(|c: (i32, i32)| keys.contains(cell_key(c.0, c.1)))
}

pub open spec fn key_cell(k: u64) -> (i32, i32) {
    (key_x(k), key_z(k))
}

/// A finite key set has as many cells as keys.
pub proof fn lemma_cells_len(keys: Set<u64>)
    requires
        keys.finite(),
    ensures
        cells_of(keys).finite(),
        cells_of(keys).len() == keys.len(),
{
    let f = |k: u64| key_cell(k);
    assert forall|a: u64, b: u64| keys.contains(a) && keys.contains(b) && #[trigger] f(a) == #[trigger] f(b)
        implies a == b by {
        lemma_cell_roundtrip(a);
        lemma_cell_roundtrip(b);
    }
    assert forall|c: (i32, i32)| cells_of(keys).contains(c) <==> keys.map(f).contains(c) by {
        lemma_key_roundtrip(c.0, c.1);
        if keys.map(f).contains(c) {
            let k = choose|k: u64| keys.contains(k) && f(k) == c;
            lemma_cell_roundtrip(k);
        } else {
            if keys.contains(cell_key(c.0, c.1)) {
                assert(f(cell_key(c.0, c.1)) == c);
            }
        }
    }
    assert(cells_of(keys) =~= keys.map(f));
    vstd::set_lib::lemma_map_size(keys, cells_of(keys), f);
}

/// A set of grid cells.
pub struct CellSet {
    keys: HashSet<u64>,
}

impl CellSet {
    pub closed spec fn cells(&self) -> Set<(i32, i32)> {
        cells_of(self.keys@)
    }

    /// The packed keys are finitely many.
    pub closed spec fn keys_finite(&self) -> bool {
        self.keys@.finite()
    }

    /// Well-formedness: finitely many cells.
    pub open spec fn wf(&self) -> bool {
        &&& self.keys_finite()
        &&& self.cells().finite()
    }

    pub fn new() -> (set: Self)
        ensures
            set.wf(),
            set.cells() == Set::<(i32, i32)>::empty(),
    {
        let set = CellSet { keys: HashSet::new() };
        assert(set.cells() =~= Set::<(i32, i32)>::empty());
        set
    }

    fn key_of(x: i32, z: i32) -> (k: u64)
        ensures
            k == cell_key(x, z),
    {
        (((x as u32) as u64) << 32u64) | ((z as u32) as u64)
    }

    fn cell_of(k: u64) -> (c: (i32, i32))
        ensures
            c == key_cell(k),
    {
        (((k >> 32u64) as u32) as i32, (k as u32) as i32)
    }

    pub fn insert(&mut self, x: i32, z: i32)
        requires
            old(self).wf(),
        ensures
            final(self).wf(),
            final(self).cells() == old(self).cells().insert((x, z)),
    {
        self.keys.insert(Self::key_of(x, z));
        proof {
            assert forall|c: (i32, i32)| self.cells().contains(c) <==> old(self).cells().insert((x, z)).contains(c) by {
                lemma_key_roundtrip(c.0, c.1);
                lemma_key_roundtrip(x, z);
            }
            assert(self.cells() =~= old(self).cells().insert((x, z)));
        }
    }

    pub fn len(&self) -> (n: usize)
        requires
            self.wf(),
        ensures
            n == self.cells().len(),
    {
        proof {
            lemma_cells_len(self.keys@);
        }
        self.keys.len()
    }

    pub fn is_empty(&self) -> (empty: bool)
        requires
            self.wf(),
        ensures
            empty == (self.cells().len() == 0),
    {
        proof {
            lemma_cells_len(self.keys@);
        }
        self.keys.is_empty()
    }

    /// Removes and returns up to `max` cells.
    pub fn drain_batch(&mut self, max: usize) -> (batch: Vec<(i32, i32)>)
        requires
            old(self).wf(),
        ensures
            final(self).wf(),
            batch@.len() == (if old(self).cells().len() < max {
                old(self).cells().len()
            } else {
                max as nat
            }),
            batch@.no_duplicates(),
            forall|i: int| 0 <= i < batch@.len() ==> old(self).cells().contains(#[trigger] batch@[i]),
            final(self).cells() == old(self).cells().difference(batch@.to_set()),
            final(self).cells().len() == old(self).cells().len() - batch@.len(),
    {
        proof {
            lemma_cells_len(self.keys@);
        }
        let total = self.keys.len();
        let count = if total < max {
            total
        } else {
            max
        };
        let mut batch: Vec<(i32, i32)> = Vec::new();
        for k in it: self.keys.iter()
            invariant_except_break
                batch@.len() == it.index(),
            invariant
                self.wf(),
                count <= total,
                total == self.keys@.len(),
                it.seq() == spec_hash_keys_iter(&self.keys).remaining(),
                batch@.len() <= count,
                batch@.len() <= it.index(),
                forall|i: int| 0 <= i < batch@.len() ==> #[trigger] batch@[i] == key_cell(*it.seq()[i]),
            ensures
                batch@.len() == count,
        {
            if batch.len() >= count {
                break;
            }
            batch.push(Self::cell_of(*k));
        }
        let ghost seq_keys = spec_hash_keys_iter(&self.keys).remaining();
        let ghost old_keys = self.keys@;
        proof {
            assert(batch@.len() == count);
            assert forall|i: int| 0 <= i < batch@.len() implies old(self).cells().contains(#[trigger] batch@[i]) by {
                assert(seq_keys.unref()[i] == *seq_keys[i]);
                assert(seq_keys.unref().contains(*seq_keys[i]));
                assert(seq_keys.unref().to_set().contains(*seq_keys[i]));
                lemma_cell_roundtrip(*seq_keys[i]);
            }
            assert forall|a: int, b: int| 0 <= a < b < batch@.len() implies batch@[a] != batch@[b] by {
                lemma_cell_roundtrip(*seq_keys[a]);
                lemma_cell_roundtrip(*seq_keys[b]);
            }
        }
        let n = batch.len();
        let mut i: usize = 0;
        while i < n
            invariant
                self.wf(),
                n == batch@.len(),
                0 <= i <= n,
                self.cells() == old(self).cells().difference(batch@.take(i as int).to_set()),
            decreases n - i,
        {
            let cell = batch[i];
            let key = Self::key_of(cell.0, cell.1);
            let ghost before = self.keys@;
            assert(cells_of(before) == old(self).cells().difference(batch@.take(i as int).to_set()));
            self.keys.remove(&key);
            assert(self.keys@ == before.remove(key));
            proof {
                lemma_key_roundtrip(cell.0, cell.1);
                assert(batch@.take(i + 1) =~= batch@.take(i as int) + seq![cell]);
                Seq::<(i32, i32)>::lemma_to_set_insert_commutes(batch@.take(i as int), cell);
                assert forall|c: (i32, i32)| self.cells().contains(c) <==> old(self).cells().difference(
                    batch@.take(i + 1).to_set(),
                ).contains(c) by {
                    lemma_key_roundtrip(c.0, c.1);
                    assert(cells_of(before).contains(c) == before.contains(cell_key(c.0, c.1)));
                    assert(self.cells().contains(c) == self.keys@.contains(cell_key(c.0, c.1)));
                    if c != cell {
                        if cell_key(c.0, c.1) == key {
                            assert(key_x(key) == c.0 && key_z(key) == c.1);
                        }
                    }
                    assert(batch@.take(i + 1).to_set().contains(c) == (batch@.take(i as int).to_set().contains(c) || c == cell));
                }
                assert(self.cells() =~= old(self).cells().difference(batch@.take(i + 1).to_set()));
                lemma_cells_len(self.keys@);
            }
            i = i + 1;
        }
        assert(batch@.take(n as int) =~= batch@);
        proof {
            let b = batch@.to_set();
            batch@.unique_seq_to_set();
            assert forall|c: (i32, i32)| b.contains(c) implies old(self).cells().contains(c) by {
                let j = choose|j: int| 0 <= j < batch@.len() && batch@[j] == c;
                assert(old(self).cells().contains(batch@[j]));
            }
            assert(old(self).cells().intersect(b) =~= b);
            vstd::set_lib::lemma_set_difference_len(old(self).cells(), b);
        }
        batch
    }
}

/// The cells within `r` of `(cx, cz)` along both axes.
pub open spec fn square_around(cx: i32, cz: i32, r: i32) -> Set<(i32, i32)> {
    Set::new(|c: (i32, i32)| cx - r <= c.0 <= cx + r && cz - r <= c.1 <= cz + r)
}

impl CellSet {
    /// Adds every cell within `r` of `(cx, cz)` along both axes.
    pub fn insert_square(&mut self, cx: i32, cz: i32, r: i32)
        requires
            old(self).wf(),
            r >= 0 ==> i32::MIN <= cx - r && cx + r <= i32::MAX && i32::MIN <= cz - r && cz + r
                <= i32::MAX,
        ensures
            final(self).wf(),
            final(self).cells() == old(self).cells().union(square_around(cx, cz, r)),
    {
        if r < 0 {
            assert(square_around(cx, cz, r) =~= Set::<(i32, i32)>::empty());
            assert(old(self).cells().union(square_around(cx, cz, r)) =~= old(self).cells());
            return;
        }
        let r64: i64 = r as i64;
        let mut dx: i64 = -r64;
        while dx <= r64
            invariant
                self.wf(),
                r >= 0,
                r64 == r,
                -r <= dx <= r + 1,
                i32::MIN <= cx - r && cx + r <= i32::MAX && i32::MIN <= cz - r && cz + r <= i32::MAX,
                self.cells() == old(self).cells().union(
                    Set::new(|c: (i32, i32)| cx - r <= c.0 < cx + dx && cz - r <= c.1 <= cz + r),
                ),
            decreases r + 1 - dx,
        {
            let mut dz: i64 = -r64;
            let ghost row_start = self.cells();
            while dz <= r64
                invariant
                    self.wf(),
                    r >= 0,
                r64 == r,
                    -r <= dx <= r,
                    -r <= dz <= r + 1,
                    i32::MIN <= cx - r && cx + r <= i32::MAX && i32::MIN <= cz - r && cz + r <= i32::MAX,
                    self.cells() == row_start.union(
                        Set::new(|c: (i32, i32)| c.0 == cx + dx && cz - r <= c.1 < cz + dz),
                    ),
                decreases r + 1 - dz,
            {
                let ghost before = self.cells();
                self.insert((cx as i64 + dx) as i32, (cz as i64 + dz) as i32);
                assert(self.cells() =~= row_start.union(
                    Set::new(|c: (i32, i32)| c.0 == cx + dx && cz - r <= c.1 < cz + dz + 1),
                ));
                dz = dz + 1;
            }
            assert(self.cells() =~= old(self).cells().union(
                Set::new(|c: (i32, i32)| cx - r <= c.0 < cx + dx + 1 && cz - r <= c.1 <= cz + r),
            ));
            dx = dx + 1;
        }
        assert(self.cells() =~= old(self).cells().union(square_around(cx, cz, r)));
    }
}

} // verus!
