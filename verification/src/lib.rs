//! Core of a voxel world viewer: world metadata, pluggable chunk storage,
//! chunk decoding, and face-culling mesh generation.
//!
//! A world is a directory with a `world.mt` metadata file and a storage
//! backend holding one serialized chunk per chunk coordinate.  A chunk is a
//! fixed 16x16x16 grid of cells, each cell a numeric id resolved through a
//! per-chunk palette of block names.  The mesher turns a chunk into a flat
//! triangle list, emitting a quad for every cube face that no solid
//! neighbour occludes.

pub mod block;
pub mod map;
pub mod mesh;
pub mod meshing;
pub mod meta;
pub mod world;
