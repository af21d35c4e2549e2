//! The device side of the pipeline.

pub mod graph;
