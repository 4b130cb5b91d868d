use vstd::prelude::*;

verus! {

/// Why a network has no DC solution.
#[derive(Debug, Clone, Copy, PartialEq, Eq, Structural)]
pub enum SolveError {
    /// The element list names no node at all.
    EmptyNetwork,
    /// An element is malformed (a resistor of zero ohms).
    InvalidElement,
    /// The assembled system has no unique solution.
    SingularMatrix,
}

} // verus!
