//! Navigation subsystem: dirty-cell tracking, cover refresh and path caching.

pub mod cell_set;
pub mod dynamic_nav_update;
pub mod hpa_star;
pub mod local_cover_refresh;
pub mod navmesh;
pub mod path_cache;
pub mod world_graph;
