//! Voxelization engine: a dense voxel grid, surface sample recording, parity-based
//! interior classification, sample reduction and bit-packed raw export.

pub mod cli;
pub mod exporter;
pub mod grid;
pub mod pipeline;
pub mod infill;
pub mod surface;
pub mod text;
pub mod visualization;
pub mod voxel;
