//! Tile cache, ancestor-fallback blending and adaptive tessellation for
//! progressively loaded HEALPix sky surveys.
pub mod buffer;
pub mod cell;
pub mod config;
pub mod coo_system;
pub mod coverage;
pub mod format;
pub mod hips2d;
pub mod query;
pub mod shader;
pub mod subdivide;
pub mod text;
pub mod texture;
pub mod time;
pub mod uv;
