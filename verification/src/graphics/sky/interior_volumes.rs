//! Interior weather volume shelter classes.

use vstd::prelude::*;

verus! {

#[derive(Clone, Copy, Debug, PartialEq, Eq, Structural)]
pub enum ShelterClass {
    OpenSky,
    Canopy,
    SemiEnclosed,
    EnclosedBroken,
    FullyEnclosed,
}

} // verus!
