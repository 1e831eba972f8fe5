//! A small directed-graph library, verified with Verus.
//!
//! A [`graph::Graph`] hands out [`graph::Vertex`] and [`graph::Edge`]
//! handles, which index dense attribute maps ([`vertex_map::VertexMap`],
//! [`edge_map::EdgeMap`]) and make up validated walks ([`path::Path`]).
//! Every executable function carries a contract stated over the
//! mathematical models in [`model`] and [`path`], and [`laws`] proves what
//! holds of all graphs.

pub mod direction;
pub mod text;
pub mod error;
pub mod graph;
pub mod model;
pub mod vertex_map;
pub mod edge_map;
pub mod path;
pub mod laws;
