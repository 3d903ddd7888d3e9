//! Voxel-based buoyancy for rigid bodies, in integer fixed-point units.
//!
//! Lengths are integers in a fixed length unit chosen by the caller (for
//! example millimetres); volumes are in that unit cubed. A body's mesh is
//! turned into a grid of cubic voxels, each voxel is classified as solid or
//! free from spatial-query results, and each tick the free voxels that lie
//! below the water surface produce an upward force.
pub mod app_states;
pub mod buoyancy;
pub mod solidity;
pub mod vec3i;
pub mod voxelize;

pub use app_states::AppStates;
pub use buoyancy::{calculate_submerged_volume, integrate_buoyancy, BuoyancyForces, PointForce};
pub use vec3i::{Pos3, Vec3I};
pub use voxelize::{
    calculate_grid_size, calculate_mesh_bounds, subdivide_cube, voxelize, voxelize_bodies,
    BuoyancyError, GridSize, MeshBounds, Voxel, VoxelGrid, COORD_BOUND,
};
