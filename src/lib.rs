//! Chunked voxel storage and per-chunk face-culled meshing.

pub mod coords;
pub mod mesh;
pub mod voxel_chunk;
pub mod voxel_data;
pub mod voxel_scene;
