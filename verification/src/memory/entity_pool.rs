//! Reusable entity ID pool.
//!
//! Allocation and deallocation of entity IDs with generation counters that
//! detect stale handles.

use std::collections::VecDeque;
use vstd::prelude::*;

verus! {

/// A pooled entity ID with generation for staleness detection.
#[derive(Clone, Copy, Debug, PartialEq, Eq, Hash)]
pub struct PooledEntity {
    pub index: u32,
    pub generation: u32,
}

/// Reusable entity ID pool with generation tracking.
pub struct EntityPool {
    /// Free indices available for reuse, oldest first.
    free_list: VecDeque<u32>,
    /// Generation counter for each index.
    generations: Vec<u32>,
    /// Maximum capacity.
    capacity: usize,
    /// Current allocated count.
    allocated: usize,
}

/// The number of indices a pool of the given capacity hands out: indices are
/// `u32`, so the capacity is taken modulo 2^32.
pub open spec fn index_count(capacity: usize) -> nat {
    (capacity as u32) as nat
}

/// The initial free list: every index below `n`, highest first.
pub open spec fn initial_free_list(n: nat) -> Seq<u32> {
    Seq::new(n, |j: int| (n - 1 - j) as u32)
}

impl EntityPool {
    /// The free indices, in the order in which they will be handed out.
    pub closed spec fn free_seq(&self) -> Seq<u32> {
        self.free_list@
    }

    /// The generation counter of every index.
    pub closed spec fn generation_seq(&self) -> Seq<u32> {
        self.generations@
    }

    pub closed spec fn spec_capacity(&self) -> usize {
        self.capacity
    }

    pub closed spec fn spec_allocated(&self) -> usize {
        self.allocated
    }

    /// Well-formedness: one generation per slot, every free index is a slot,
    /// and free plus allocated indices account for the indices of the pool.
    pub closed spec fn wf(&self) -> bool {
        &&& self.generations@.len() == self.capacity
        &&& index_count(self.capacity) <= self.capacity
        &&& forall|i: int| 0 <= i < self.free_list@.len() ==> #[trigger] self.free_list@[i] < self.capacity
        &&& self.allocated + self.free_list@.len() == index_count(self.capacity)
    }

    /// A pool whose free list holds each index at most once, as it does when
    /// only handles that it handed out are given back.
    pub closed spec fn no_duplicate_free(&self) -> bool {
        self.free_list@.no_duplicates()
    }

    /// The indices handed out and not given back: those of the pool that
    /// are not free.
    pub open spec fn held_indices(&self) -> Set<int> {
        Set::new(|i: int| 0 <= i < index_count(self.spec_capacity()) && !self.free_seq().contains(i as u32))
    }

    /// Whether `entity` names a slot whose generation it carries.
    pub open spec fn valid_handle(&self, entity: PooledEntity) -> bool {
        &&& (entity.index as int) < self.spec_capacity()
        &&& self.generation_seq()[entity.index as int] == entity.generation
    }

    /// Create a new entity pool with given capacity.
    pub fn new(capacity: usize) -> (pool: Self)
        ensures
            pool.wf(),
            pool.no_duplicate_free(),
            pool.spec_capacity() == capacity,
            pool.spec_allocated() == 0,
            pool.free_seq() == initial_free_list(index_count(capacity)),
            pool.generation_seq() == Seq::new(capacity as nat, |i: int| 0u32),
    {
        let n: u32 = capacity as u32;
        let mut free_list: VecDeque<u32> = VecDeque::with_capacity(capacity);
        let mut i: u32 = n;
        while i > 0
            invariant
                i <= n,
                free_list@ == initial_free_list(n as nat).take((n - i) as int),
            decreases i,
        {
            i = i - 1;
            free_list.push_back(i);
            assert(free_list@ =~= initial_free_list(n as nat).take((n - i) as int));
        }
        assert(free_list@ =~= initial_free_list(n as nat));
        let generations: Vec<u32> = vec![0u32; capacity];
        assert(generations@ =~= Seq::new(capacity as nat, |i: int| 0u32));
        proof {
            assert(n as nat == index_count(capacity));
            assert((capacity as u32) as nat <= capacity as nat) by (bit_vector);
            assert forall|a: int, b: int| 0 <= a < b < free_list@.len()
                implies free_list@[a] != free_list@[b] by {}
        }
        EntityPool { free_list, generations, capacity, allocated: 0 }
    }
    /// Allocate a new entity ID.
    /// Returns None if pool is exhausted.
    pub fn allocate(&mut self) -> (result: Option<PooledEntity>)
        requires
            old(self).wf(),
        ensures
            final(self).wf(),
            final(self).spec_capacity() == old(self).spec_capacity(),
            final(self).generation_seq() == old(self).generation_seq(),
            old(self).free_seq().len() == 0 ==> {
                &&& result is None
                &&& final(self).free_seq() == old(self).free_seq()
                &&& final(self).spec_allocated() == old(self).spec_allocated()
            },
            old(self).free_seq().len() > 0 ==> {
                &&& result == Some(PooledEntity {
                    index: old(self).free_seq()[0],
                    generation: old(self).generation_seq()[old(self).free_seq()[0] as int],
                })
                &&& final(self).free_seq() == old(self).free_seq().drop_first()
                &&& final(self).spec_allocated() == old(self).spec_allocated() + 1
            },
            result matches Some(e) ==> final(self).valid_handle(e),
            old(self).no_duplicate_free() ==> final(self).no_duplicate_free(),
            old(self).no_duplicate_free() ==> (result matches Some(e) ==> !final(self).free_seq().contains(e.index)),
            old(self).no_duplicate_free() && old(self).spec_capacity() <= u32::MAX ==> (result matches Some(e) ==> {
                &&& !old(self).held_indices().contains(e.index as int)
                &&& final(self).held_indices() == old(self).held_indices().insert(e.index as int)
            }),
    {
        let ghost before = self.free_list@;
        match self.free_list.pop_front() {
            Some(index) => {
                assert(index == old(self).free_list@[0]);
                self.allocated = self.allocated + 1;
                proof {
                    assert forall|i: int| 0 <= i < self.free_list@.len()
                        implies #[trigger] self.free_list@[i] < self.capacity by {
                        assert(self.free_list@[i] == old(self).free_list@[i + 1]);
                    }
                }
                proof {
                    if old(self).no_duplicate_free() {
                        assert forall|i: int| 0 <= i < self.free_list@.len()
                            implies self.free_list@[i] != index by {
                            assert(before[i + 1] == self.free_list@[i]);
                            assert(before[0] != before[i + 1]);
                        }
                    }
                }
                proof {
                    if old(self).no_duplicate_free() && old(self).capacity <= u32::MAX {
                        let c = self.capacity;
                        assert(c <= 0xffff_ffffusize ==> (c as u32) as usize == c) by (bit_vector);
                        assert(index < self.capacity);
                        assert forall|i: int| #[trigger] self.held_indices().contains(i) == old(self).held_indices().insert(index as int).contains(i) by {
                            if 0 <= i < index_count(self.capacity) {
                                if self.free_list@.contains(i as u32) {
                                    let k = choose|k: int| 0 <= k < self.free_list@.len() && self.free_list@[k] == i as u32;
                                    assert(before[k + 1] == self.free_list@[k]);
                                }
                                if before.contains(i as u32) && i as u32 != index {
                                    let k = choose|k: int| 0 <= k < before.len() && before[k] == i as u32;
                                    assert(k != 0);
                                    assert(self.free_list@[k - 1] == before[k]);
                                }
                            }
                        }
                        assert(self.held_indices() =~= old(self).held_indices().insert(index as int));
                    }
                }
                Some(PooledEntity { index, generation: self.generations[index as usize] })
            },
            None => None,
        }
    }

    /// Deallocate an entity ID.
    /// Returns true if the entity was valid and deallocated.
    pub fn deallocate(&mut self, entity: PooledEntity) -> (freed: bool)
        requires
            old(self).wf(),
            old(self).valid_handle(entity) ==> old(self).spec_allocated() > 0,
        ensures
            final(self).wf(),
            freed == old(self).valid_handle(entity),
            final(self).spec_capacity() == old(self).spec_capacity(),
            !freed ==> *final(self) == *old(self),
            freed ==> {
                &&& final(self).generation_seq() == old(self).generation_seq().update(
                    entity.index as int,
                    old(self).generation_seq()[entity.index as int].wrapping_add(1),
                )
                &&& final(self).free_seq() == old(self).free_seq().push(entity.index)
                &&& final(self).spec_allocated() == old(self).spec_allocated() - 1
                &&& !final(self).valid_handle(entity)
            },
            old(self).no_duplicate_free() && !old(self).free_seq().contains(entity.index)
                ==> final(self).no_duplicate_free(),
            freed && !old(self).free_seq().contains(entity.index) ==> final(self).held_indices()
                == old(self).held_indices().remove(entity.index as int),
    {
        let idx = entity.index as usize;
        if idx >= self.capacity || self.generations[idx] != entity.generation {
            return false;
        }
        let next = self.generations[idx].wrapping_add(1);
        self.generations.set(idx, next);
        self.free_list.push_back(entity.index);
        self.allocated = self.allocated - 1;
        proof {
            assert(self.free_list@.len() == old(self).free_list@.len() + 1);
            assert forall|i: int| 0 <= i < self.free_list@.len()
                implies #[trigger] self.free_list@[i] < self.capacity by {
                if i < old(self).free_list@.len() {
                    assert(self.free_list@[i] == old(self).free_list@[i]);
                } else {
                    assert(self.free_list@[i] == entity.index);
                }
            }
        }
        proof {
            assert forall|i: int| #[trigger] self.held_indices().contains(i) == old(self).held_indices().remove(entity.index as int).contains(i) by {
                if 0 <= i < index_count(self.capacity) {
                    let ghost b = old(self).free_list@;
                    assert(self.free_list@ == b.push(entity.index));
                    if self.free_list@.contains(i as u32) && i as u32 != entity.index {
                        let k = choose|k: int| 0 <= k < self.free_list@.len() && self.free_list@[k] == i as u32;
                        assert(k < b.len());
                        assert(b[k] == self.free_list@[k]);
                    }
                    if b.contains(i as u32) {
                        let k = choose|k: int| 0 <= k < b.len() && b[k] == i as u32;
                        assert(self.free_list@[k] == b[k]);
                    }
                    if i as u32 == entity.index {
                        assert(self.free_list@[b.len() as int] == entity.index);
                        assert(i == entity.index as int);
                    }
                }
            }
            assert(self.held_indices() =~= old(self).held_indices().remove(entity.index as int));
        }
        proof {
            if old(self).no_duplicate_free() && !old(self).free_seq().contains(entity.index) {
                assert forall|a: int, b: int| 0 <= a < b < self.free_list@.len()
                    implies self.free_list@[a] != self.free_list@[b] by {
                    if b == old(self).free_list@.len() {
                        assert(old(self).free_list@[a] == self.free_list@[a]);
                    }
                }
            }
        }
        true
    }

    /// Check if an entity is still valid.
    pub fn is_valid(&self, entity: PooledEntity) -> (valid: bool)
        requires
            self.wf(),
        ensures
            valid == self.valid_handle(entity),
    {
        let idx = entity.index as usize;
        idx < self.capacity && self.generations[idx] == entity.generation
    }

    /// Get current allocated count.
    pub fn allocated_count(&self) -> (count: usize)
        ensures
            count == self.spec_allocated(),
    {
        self.allocated
    }

    /// Get available capacity.
    pub fn available(&self) -> (count: usize)
        ensures
            count == self.free_seq().len(),
    {
        self.free_list.len()
    }

    /// Every index of a pool is either free or allocated: the counts add up
    /// to the capacity (which indices, being `u32`, bound).
    pub proof fn lemma_counts_add_up(&self)
        requires
            self.wf(),
            self.spec_capacity() <= u32::MAX,
        ensures
            self.spec_allocated() + self.free_seq().len() == self.spec_capacity(),
    {
        let c = self.capacity;
        assert(c <= 0xffff_ffffusize ==> (c as u32) as usize == c) by (bit_vector);
    }

    /// No index is held twice: in a pool whose free list repeats no index,
    /// the allocated count is exactly the number of distinct indices held
    /// (for pools of at most `u32::MAX` slots, which `u32` indices bound).
    pub proof fn lemma_held_accounting(&self)
        requires
            self.wf(),
            self.no_duplicate_free(),
            self.spec_capacity() <= u32::MAX,
        ensures
            self.held_indices().finite(),
            self.held_indices().len() == self.spec_allocated(),
    {
        let c = self.capacity;
        assert(c <= 0xffff_ffffusize ==> (c as u32) as usize == c) by (bit_vector);
        let n = c as int;
        let free = self.free_list@;
        let f = free.map_values(|x: u32| x as int);
        assert forall|a: int, b: int| 0 <= a < b < f.len() implies f[a] != f[b] by {
            assert(free[a] != free[b]);
        }
        f.unique_seq_to_set();
        let fs = f.to_set();
        let r = vstd::set_lib::set_int_range(0, n);
        vstd::set_lib::lemma_int_range(0, n);
        assert forall|i: int| fs.contains(i) implies r.contains(i) by {
            let k = choose|k: int| 0 <= k < f.len() && f[k] == i;
            assert(free[k] < c);
        }
        assert(r.intersect(fs) =~= fs);
        vstd::set_lib::lemma_len_subset(fs, r);
        assert forall|i: int| #[trigger] self.held_indices().contains(i) == r.difference(fs).contains(i) by {
            if 0 <= i < n {
                if free.contains(i as u32) {
                    let k = choose|k: int| 0 <= k < free.len() && free[k] == i as u32;
                    assert(f[k] == i);
                }
                if fs.contains(i) {
                    let k = choose|k: int| 0 <= k < f.len() && f[k] == i;
                    assert(free[k] == i as u32);
                }
            }
        }
        assert(self.held_indices() =~= r.difference(fs));
        vstd::set_lib::lemma_set_difference_len(r, fs);
    }

    /// Get total capacity.
    pub fn capacity(&self) -> (cap: usize)
        ensures
            cap == self.spec_capacity(),
    {
        self.capacity
    }
}

} // verus!
