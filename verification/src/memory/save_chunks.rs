//! Serialized forms of entity data.

use vstd::prelude::*;

verus! {

#[derive(Clone, Copy, Debug, PartialEq, Eq)]
pub struct SerEntityKind {
    pub is_npc: bool,
    pub species: Option<u8>,
}

} // verus!
