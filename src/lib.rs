//! Native helpers for a workspace host: filtered file discovery over walked
//! directory entries, and in-degree / search-index metadata over a JSON graph.

pub mod text;
pub mod discovery;
pub mod graph;
pub mod json;
