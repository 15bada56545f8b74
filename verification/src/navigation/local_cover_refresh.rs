//! Queue of cover cells to re-evaluate after the world changed.

use crate::navigation::cell_set::{square_around, CellSet};
use vstd::prelude::*;

verus! {

pub const MAX_COVER_UPDATES_PER_FRAME: usize = 32;

pub struct CoverRefreshQueue {
    dirty_cells: CellSet,
}

impl CoverRefreshQueue {
    /// The cells waiting for a cover refresh.
    pub closed spec fn dirty(&self) -> Set<(i32, i32)> {
        self.dirty_cells.cells()
    }

    /// The cell set is well formed.
    pub closed spec fn cells_wf(&self) -> bool {
        self.dirty_cells.wf()
    }

    /// Well-formedness: finitely many cells wait.
    pub open spec fn wf(&self) -> bool {
        &&& self.cells_wf()
        &&& self.dirty().finite()
    }

    pub fn new() -> (queue: Self)
        ensures
            queue.wf(),
            queue.dirty() == Set::<(i32, i32)>::empty(),
    {
        CoverRefreshQueue { dirty_cells: CellSet::new() }
    }

    pub fn mark_dirty(&mut self, cell_x: i32, cell_z: i32)
        requires
            old(self).wf(),
        ensures
            final(self).wf(),
            final(self).dirty() == old(self).dirty().insert((cell_x, cell_z)),
    {
        self.dirty_cells.insert(cell_x, cell_z);
    }

    /// Marks every cell within `r` of `(cx, cz)` along both axes.
    pub fn mark_cells_around(&mut self, cx: i32, cz: i32, r: i32)
        requires
            old(self).wf(),
            r >= 0 ==> i32::MIN <= cx - r && cx + r <= i32::MAX && i32::MIN <= cz - r && cz + r
                <= i32::MAX,
        ensures
            final(self).wf(),
            final(self).dirty() == old(self).dirty().union(square_around(cx, cz, r)),
    {
        self.dirty_cells.insert_square(cx, cz, r);
    }

    pub fn drain_batch(&mut self) -> (batch: Vec<(i32, i32)>)
        requires
            old(self).wf(),
        ensures
            final(self).wf(),
            batch@.len() == (if old(self).dirty().len() < MAX_COVER_UPDATES_PER_FRAME {
                old(self).dirty().len()
            } else {
                MAX_COVER_UPDATES_PER_FRAME as nat
            }),
            batch@.no_duplicates(),
            forall|i: int| 0 <= i < batch@.len() ==> old(self).dirty().contains(#[trigger] batch@[i]),
            final(self).dirty() == old(self).dirty().difference(batch@.to_set()),
            final(self).dirty().len() == old(self).dirty().len() - batch@.len(),
    {
        self.dirty_cells.drain_batch(MAX_COVER_UPDATES_PER_FRAME)
    }

    pub fn is_empty(&self) -> (empty: bool)
        requires
            self.wf(),
        ensures
            empty == (self.dirty().len() == 0),
    {
        self.dirty_cells.is_empty()
    }
}

} // verus!
