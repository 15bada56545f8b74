//! Precipitation kinds.

use vstd::prelude::*;

verus! {

#[derive(Clone, Copy, Debug, PartialEq, Eq, Structural)]
pub enum PrecipitationType {
    Rain,
    Snow,
    Hail,
}

} // verus!
