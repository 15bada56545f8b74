//! Upload bookkeeping for surface state rendering.

use vstd::prelude::*;

verus! {

pub struct SurfaceStateRenderSystem {
    pub dirty_upload_count: usize,
}

impl SurfaceStateRenderSystem {
    pub fn new() -> (system: Self)
        ensures
            system.dirty_upload_count == 0,
    {
        Self { dirty_upload_count: 0 }
    }

    /// Records the batch of dirty surface cells drained for this frame's
    /// upload.
    pub fn update<T>(&mut self, dirty: &[T])
        ensures
            final(self).dirty_upload_count == dirty@.len(),
    {
        self.dirty_upload_count = dirty.len();
    }
}

} // verus!
