//! Level-of-detail classes.

use vstd::prelude::*;

verus! {

#[derive(Clone, Copy, Debug, PartialEq, Eq, Structural)]
pub enum LodLevel {
    Full,
    Medium,
    Low,
    Billboard,
    Culled,
}

} // verus!
