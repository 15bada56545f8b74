//! Locations of the world graph.

use vstd::prelude::*;

verus! {

pub type LocationId = u32;

#[derive(Clone, Debug)]
pub struct Location {
    pub id: LocationId,
    pub name: String,
    pub cell_x: u32,
    pub cell_y: u32,
}

} // verus!
