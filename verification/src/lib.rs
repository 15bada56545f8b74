//! Verified core data structures of the engine: entity pooling, streaming
//! caches, dirty tracking, navigation bookkeeping, input actions and render
//! validation tables.

pub mod graphics;
pub mod input;
pub mod memory;
pub mod navigation;
