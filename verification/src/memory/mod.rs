//! Memory subsystem: entity pooling, caching and allocation accounting.

pub mod asset_manager;
pub mod atomic_saved;
pub mod component_delta;
pub mod entity_pool;
pub mod memory_manager;
pub mod save_chunks;
pub mod streaming_cache;
