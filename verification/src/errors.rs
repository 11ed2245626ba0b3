use vstd::prelude::*;

verus! {

/// The error taxonomy surfaced to API callers.
#[derive(Clone, Copy, Debug, PartialEq, Eq, Structural)]
pub enum ApiError {
    /// Any failure reported by the persistence layer.
    Storage,
    /// A satellite record expected to exist for an event is missing.
    NotFound,
    /// The caller lacks the role required for a mutation.
    Forbidden,
    /// A malformed payload crossed the publish/subscribe boundary.
    Decode,
    /// A malformed input id (non-numeric or out of range).
    Validation,
}

} // verus!
