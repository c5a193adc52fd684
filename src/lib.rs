//! The core of a voxel sandbox world: chunked block storage, terrain layering,
//! chunk streaming decisions, surface meshing and player dynamics.
pub mod block;
pub mod chunk;
pub mod coords;
pub mod world;
pub mod terrain;
pub mod streaming;
pub mod mesh;
pub mod player;
