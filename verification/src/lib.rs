//! Symbolic LaTeX engine for neural-network computation graphs.
//!
//! Given a graph of operators, the engine assigns a LaTeX symbol to every
//! node, renders the forward expression of each node, and expands the chain
//! rule from a weight-bearing layer to the loss into a LaTeX derivative.

pub mod kind;
pub mod text;
pub mod skeleton;
pub mod skeleton_laws;
pub mod node_info;
pub mod library;
pub mod ops;
pub mod templates;
pub mod graph;
pub mod symbol_map;
pub mod engine;
pub mod forward;
pub mod forward_laws;
pub mod symbol_laws;
pub mod record_laws;
pub mod chain;
pub mod render;
pub mod backward;
pub mod backward_laws;
pub mod onnx;
