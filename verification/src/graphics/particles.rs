//! GPU particle system limits.

use vstd::prelude::*;

verus! {

/// The number of particles the particle buffers hold.
pub const MAX_PARTICLES: u32 = 16384;

} // verus!
