//! Graphics subsystem: the parts of rendering that are bookkeeping rather
//! than GPU work.

pub mod decal_system;
pub mod lod;
pub mod particles;
pub mod render_validation;
pub mod shader_loader;
pub mod sky;
pub mod surface_state_render;
