//! Weather states.

use vstd::prelude::*;

verus! {

#[derive(Clone, Copy, Debug, PartialEq, Eq, Structural)]
pub enum WeatherState {
    Clear,
    Cloudy,
    Storm,
    Rain,
    Clearing,
}

} // verus!
