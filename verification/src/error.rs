//! The ways in which building or resolving a graph can fail.

use vstd::prelude::*;

verus! {

/// Why an operation was rejected.
#[derive(Clone, Copy, Debug, PartialEq, Eq, Structural)]
pub enum ShapeError {
    /// Operands disagree in rank, or in an axis that cannot be broadcast.
    ShapeMismatch,
    /// A slice, permutation or reshape specification contradicts itself.
    InvalidRange,
    /// Sizes that were expected to be equal differ once their symbols are bound.
    UnresolvedDynamicMismatch,
    /// The host computation behind a function node failed, or broke its declaration.
    FunctionPayloadError,
    /// A size cannot be computed under the given bindings: a symbol is unbound, or the
    /// arithmetic is undefined.
    UnboundSymbol,
}

} // verus!
