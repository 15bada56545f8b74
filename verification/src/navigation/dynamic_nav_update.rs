//! Tracking of navigation cells and clusters that need rebuilding after the
//! world changed.

use crate::navigation::cell_set::{square_around, CellSet};
use vstd::prelude::*;

verus! {

pub const MAX_DIRTY_CELLS_PER_FRAME: usize = 64;

pub const MAX_CLUSTER_REBUILDS_PER_FRAME: usize = 2;

pub struct NavDirtyTracker {
    dirty_cells: CellSet,
    pending_cluster_rebuilds: Vec<u32>,
}

impl NavDirtyTracker {
    /// The cells waiting to be rebuilt.
    pub closed spec fn dirty(&self) -> Set<(i32, i32)> {
        self.dirty_cells.cells()
    }

    /// The clusters waiting to be rebuilt, in the order they were marked.
    pub closed spec fn pending_clusters(&self) -> Seq<u32> {
        self.pending_cluster_rebuilds@
    }

    /// The cell set is well formed.
    pub closed spec fn cells_wf(&self) -> bool {
        self.dirty_cells.wf()
    }

    /// Well-formedness: finitely many dirty cells, and each cluster pending
    /// at most once.
    pub open spec fn wf(&self) -> bool {
        &&& self.cells_wf()
        &&& self.dirty().finite()
        &&& self.pending_clusters().no_duplicates()
    }

    pub fn new() -> (tracker: Self)
        ensures
            tracker.wf(),
            tracker.dirty() == Set::<(i32, i32)>::empty(),
            tracker.pending_clusters() == Seq::<u32>::empty(),
    {
        NavDirtyTracker { dirty_cells: CellSet::new(), pending_cluster_rebuilds: Vec::new() }
    }

    pub fn mark_dirty(&mut self, cell_x: i32, cell_z: i32)
        requires
            old(self).wf(),
        ensures
            final(self).wf(),
            final(self).dirty() == old(self).dirty().insert((cell_x, cell_z)),
            final(self).pending_clusters() == old(self).pending_clusters(),
    {
        self.dirty_cells.insert(cell_x, cell_z);
    }

    /// Marks every cell within `r` of `(cx, cz)` along both axes.
    pub fn mark_cells_around(&mut self, cx: i32, cz: i32, r: i32)
        requires
            old(self).wf(),
            r >= 0 ==> i32::MIN <= cx - r && cx + r <= i32::MAX && i32::MIN <= cz - r && cz + r
                <= i32::MAX,
        ensures
            final(self).wf(),
            final(self).dirty() == old(self).dirty().union(square_around(cx, cz, r)),
            final(self).pending_clusters() == old(self).pending_clusters(),
    {
        self.dirty_cells.insert_square(cx, cz, r);
    }

    pub fn mark_cluster_rebuild(&mut self, cluster_id: u32)
        requires
            old(self).wf(),
        ensures
            old(self).pending_clusters().contains(cluster_id) ==> final(self).pending_clusters()
                == old(self).pending_clusters(),
            !old(self).pending_clusters().contains(cluster_id) ==> final(self).pending_clusters()
                == old(self).pending_clusters().push(cluster_id),
            final(self).dirty() == old(self).dirty(),
            final(self).wf(),
    {
        let n = self.pending_cluster_rebuilds.len();
        let mut i: usize = 0;
        while i < n
            invariant
                n == self.pending_cluster_rebuilds@.len(),
                self.wf(),
                self.pending_cluster_rebuilds@ == old(self).pending_cluster_rebuilds@,
                0 <= i <= n,
                forall|j: int| 0 <= j < i ==> self.pending_cluster_rebuilds@[j] != cluster_id,
            decreases n - i,
        {
            if self.pending_cluster_rebuilds[i] == cluster_id {
                assert(old(self).pending_clusters().contains(cluster_id));
                return;
            }
            i = i + 1;
        }
        self.pending_cluster_rebuilds.push(cluster_id);
        proof {
            assert forall|a: int, b: int| 0 <= a < b < self.pending_cluster_rebuilds@.len()
                implies self.pending_cluster_rebuilds@[a] != self.pending_cluster_rebuilds@[b] by {
                if b == n {
                    assert(self.pending_cluster_rebuilds@[a] == old(self).pending_cluster_rebuilds@[a]);
                } else {
                    assert(self.pending_cluster_rebuilds@[a] == old(self).pending_cluster_rebuilds@[a]);
                    assert(self.pending_cluster_rebuilds@[b] == old(self).pending_cluster_rebuilds@[b]);
                }
            }
        }
    }

    pub fn drain_dirty_batch(&mut self) -> (batch: Vec<(i32, i32)>)
        requires
            old(self).wf(),
        ensures
            final(self).wf(),
            batch@.len() == (if old(self).dirty().len() < MAX_DIRTY_CELLS_PER_FRAME {
                old(self).dirty().len()
            } else {
                MAX_DIRTY_CELLS_PER_FRAME as nat
            }),
            batch@.no_duplicates(),
            forall|i: int| 0 <= i < batch@.len() ==> old(self).dirty().contains(#[trigger] batch@[i]),
            final(self).dirty() == old(self).dirty().difference(batch@.to_set()),
            final(self).pending_clusters() == old(self).pending_clusters(),
            final(self).dirty().len() == old(self).dirty().len() - batch@.len(),
    {
        self.dirty_cells.drain_batch(MAX_DIRTY_CELLS_PER_FRAME)
    }

    pub fn drain_cluster_rebuilds(&mut self) -> (batch: Vec<u32>)
        requires
            old(self).wf(),
        ensures
            ({
                let n = if old(self).pending_clusters().len() < MAX_CLUSTER_REBUILDS_PER_FRAME {
                    old(self).pending_clusters().len() as int
                } else {
                    MAX_CLUSTER_REBUILDS_PER_FRAME as int
                };
                &&& batch@ == old(self).pending_clusters().take(n)
                &&& final(self).pending_clusters() == old(self).pending_clusters().skip(n)
            }),
            final(self).dirty() == old(self).dirty(),
            final(self).wf(),
    {
        let len = self.pending_cluster_rebuilds.len();
        let count = if len < MAX_CLUSTER_REBUILDS_PER_FRAME {
            len
        } else {
            MAX_CLUSTER_REBUILDS_PER_FRAME
        };
        let mut batch = self.pending_cluster_rebuilds.split_off(count);
        std::mem::swap(&mut batch, &mut self.pending_cluster_rebuilds);
        proof {
            assert forall|a: int, b: int| 0 <= a < b < self.pending_cluster_rebuilds@.len()
                implies self.pending_cluster_rebuilds@[a] != self.pending_cluster_rebuilds@[b] by {
                assert(self.pending_cluster_rebuilds@[a] == old(self).pending_cluster_rebuilds@[a + count]);
                assert(self.pending_cluster_rebuilds@[b] == old(self).pending_cluster_rebuilds@[b + count]);
            }
        }
        batch
    }

    pub fn pending_count(&self) -> (count: usize)
        requires
            self.wf(),
        ensures
            count == self.dirty().len(),
    {
        self.dirty_cells.len()
    }

    pub fn is_empty(&self) -> (empty: bool)
        requires
            self.wf(),
        ensures
            empty == (self.dirty().len() == 0 && self.pending_clusters().len() == 0),
    {
        self.dirty_cells.is_empty() && self.pending_cluster_rebuilds.is_empty()
    }
}

} // verus!
