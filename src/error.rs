use vstd::prelude::*;

verus! {

/// Errors reported by the allocators.
#[derive(Debug, Clone, Copy, PartialEq, Eq, Structural)]
pub enum AllocError {
    /// The request is malformed, or the region cannot be extended this way.
    InvalidParam,
    /// No room is left for the request.
    NoMemory,
}

} // verus!
