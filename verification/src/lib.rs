//! Directed hypergraphs over unbounded vertex ids, and their rendering as a
//! node-and-edge JSON document for graph visualizers.

pub mod hypergraph;
pub mod json;
pub mod numeral;
pub mod sigma;
pub mod value;
pub mod vertex;
