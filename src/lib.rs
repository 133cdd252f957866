//! Reverse-mode automatic differentiation over scalar computation graphs.
//!
//! Graphs are built from node ids handed out by a shared [`graph::NodeAllocator`];
//! an [`executor::Executor`] runs one graph against a shared [`store::Store`] of
//! value/gradient cells and updates its parameters with an
//! [`optimizer::Optimizer`]. Values come from any [`scalar::Scalar`] type.
pub mod config;
pub mod error;
pub mod executor;
pub mod float;
pub mod graph;
pub mod laws;
pub mod op;
pub mod ops;
pub mod optimizer;
pub mod polynomial;
pub mod scalar;
pub mod store;
pub mod text;
