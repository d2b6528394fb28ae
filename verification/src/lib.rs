//! Voxel terrain meshing: typed voxel volumes in three storage layouts and the
//! region meshers that turn them into a triangulated surface, with the laws
//! that the meshers obey. Beside them stands plain game state that other parts
//! of the game share: the idle character state, simulation data and the
//! history of campfire sound cues.

pub mod vec3;
pub mod block;
pub mod vol;
pub mod dyna;
pub mod chunks;
pub mod vol_map_2d;
pub mod vol_map_3d;
pub mod mesh;
pub mod faces;
pub mod scan;
pub mod terrain;
pub mod idle;
pub mod rtsim;
pub mod campfire;
