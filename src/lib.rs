//! Voxel chunk storage, terrain population, face meshing and single-voxel edits.
pub mod voxel;
pub mod grid;
pub mod registry;
pub mod terrain;
pub mod atlas;
pub mod mesher;
pub mod edit;
pub mod vegetation;
pub mod world;
