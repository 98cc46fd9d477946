//! A verified core for maintaining and querying a planar triangulation.
//!
//! The library keeps a combinatorial mesh of vertices and triangular faces
//! with explicit neighbor links, and answers topological and geometric
//! queries against it: resolving flexible vertex references, looking up
//! twin (opposite) edges, circulating the faces around a vertex, and
//! enumerating the features that the straight segment between two vertices
//! passes through.  Geometric decisions are made with exact integer
//! predicates, so every classification is provably consistent.
//!
//! - [`types`]: handles, rotations and error kinds.
//! - [`geometry`]: positions and the exact orientation and collinearity
//!   predicates.
//! - [`graph`]: the vertex and face arenas, their mathematical model and
//!   the structural well-formedness invariant.
//! - [`circulator`]: the walker over the edges incident to a vertex.
//! - [`query`]: clue resolution, twin-edge lookup and edge search around a
//!   vertex.
//! - [`crossing`]: the lazy walk along a segment between two vertices.
//! - [`input`], [`render`], [`store`], [`vectormerge`]: small companion
//!   types shared with the surrounding engine layers.

pub mod types;
pub mod geometry;
pub mod graph;
pub mod circulator;
pub mod query;
pub mod crossing;
pub mod input;
pub mod render;
pub mod store;
pub mod vectormerge;
