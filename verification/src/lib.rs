//! A level-of-detail cache for a tile world cut into square chunks.
//!
//! Every chunk keeps a composite of its tiles at a resolution picked from its
//! distance to the viewer, and a permanent coarse composite to fall back on.
//! A scheduler rebakes at most one chunk per tick, so the cost of a frame
//! stays bounded however many chunks are out of date.

pub mod lod;
pub mod tiles;
pub mod image;
pub mod chunk;
pub mod viewer;
pub mod grid;
pub mod scheduler;
pub mod zoom;
