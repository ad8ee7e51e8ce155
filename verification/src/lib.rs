//! A deformable triangle mesh that approximates a raster image, together with
//! a small genetic-algorithm engine that evolves such meshes toward a target.
//!
//! The mesh is a lattice of vertices, each holding a position on a fixed
//! 65536-unit canvas and two triangle colours.  Mutation moves one vertex
//! inside the polygon of its lattice neighbours; two rasterizers turn the
//! mesh into (pixel, colour) pairs at a caller-chosen power-of-two
//! resolution; the engine scores a population of meshes against a target
//! image and breeds the next generation from the fittest member.

pub mod colour;
pub mod grid;
pub mod member;
pub mod mutation;
pub mod point;
pub mod polygon;
pub mod population;
pub mod rasters;
pub mod rng;
pub mod tri;
