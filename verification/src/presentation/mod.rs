//! Presentation layer: the decisions of the GPU frame pipeline.

pub mod gpu;
