pub mod complexity;
pub mod duplicate_shapes;
pub mod fingerprints;
pub mod large_nodes;
