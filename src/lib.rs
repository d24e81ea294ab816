//! Procedural voxel terrain and chunk streaming.
//!
//! - `mesh`: the cube tables and the append-only mesh builder.
//! - `texture`: atlas coordinates of each block kind's faces.
//! - `biome`: the noise seam (`NoiseSource`) and the biome classifier.
//! - `terrain`: the height field, the exposed-block rule, and chunk synthesis.
//! - `strategies`: flat, noise-fill, mountain and spiral generation.
//! - `chunk`: grid coordinates and chunks with their meshes.
//! - `world`: the streaming manager that follows a viewpoint.
pub mod mesh;
pub mod biome;
pub mod terrain;
pub mod chunk;
pub mod world;
pub mod texture;
pub mod strategies;
