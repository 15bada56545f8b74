//! Sky and weather.

pub mod determinism;
pub mod interior_volumes;
pub mod precipitation;
pub mod weather_controller;
