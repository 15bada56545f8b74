//! Input subsystem: keyboard state, game actions and their bindings.

pub mod input;
pub mod input_system;
