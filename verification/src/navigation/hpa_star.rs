//! Cluster coordinates and border nodes of the hierarchical path graph.

use vstd::prelude::*;

verus! {

#[derive(Clone, Copy, Debug, Hash, PartialEq, Eq, Structural)]
pub struct ClusterCoord {
    pub cx: u32,
    pub cy: u32,
}

#[derive(Clone, Copy, Debug, Hash, PartialEq, Eq, Structural)]
pub struct BorderNode {
    pub cluster: ClusterCoord,
    pub local_x: u32,
    pub local_y: u32,
}

} // verus!
