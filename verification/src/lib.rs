//! Shape tracking for tensor graphs whose axis sizes are partly fixed when the graph is
//! built and partly known only when it runs.
//!
//! The crate is layered bottom-up:
//!
//! - [`expression`] is the symbolic integer algebra that every size and every range
//!   bound is written in, and [`bindings`] gives its symbols values;
//! - [`shape`] classifies axes as fixed or run-time, and [`shape::slice`] maps slice
//!   specifications to half-open ranges and to the classification of the sliced axes;
//! - [`permutation`] holds what is common to relabelling the axes of a shape and of a
//!   view;
//! - [`tracker`] holds views of stored tensors and composes the transforms that move no
//!   data: slice, permute, broadcast, reshape, join;
//! - [`graph`] records every operation as a node of an append-only arena and hands out
//!   handles to the results;
//! - [`function`] splices host computations into the graph, and [`host`] brings two of
//!   them along;
//! - [`error`] names the ways in which an operation can be refused.
//!
//! Every executable function is verified against a contract over plain mathematical
//! models: terms, sequences of dimensions, sequences of axes. The laws that relate
//! several functions are stated as proof functions next to them.

pub mod bindings;
pub mod error;
pub mod expression;
pub mod function;
pub mod graph;
pub mod host;
pub mod permutation;
pub mod shape;
pub mod tracker;
