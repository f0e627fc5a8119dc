//! Voxel terrain on a bounded grid: a sparse occupancy volume, terrain
//! generation from fixed-point noise samples, occlusion culling, the outline
//! of one level, and the isometric projection of grid cells.
//!
//! Everything here works on integers. Quantities that are fractional on the
//! screen are carried in fixed point, with the unit named by the item that
//! produces them.

pub mod constants;
pub mod error;
pub mod geometry;
pub mod grid;
pub mod noise_field;
pub mod seq_facts;
pub mod silhouette;
pub mod stone;
pub mod stone_map;
pub mod terrain;
pub mod visibility;
