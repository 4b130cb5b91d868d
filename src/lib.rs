//! DC operating point of a lumped linear network by modified nodal analysis.
//!
//! The library holds the exact, integer part of the method: which nodes a
//! network has and which of them is the reference, the DC substitution of
//! reactive elements, and where each element's contribution lands in the
//! modified nodal system.  The element values are carried through untouched
//! as an opaque type `V`, so the numeric summation and the dense solve are
//! left to the caller.
pub mod analysis;
pub mod dc;
pub mod element;
pub mod error;
pub mod laws;
pub mod nodes;
pub mod system;
