use vstd::prelude::*;

verus! {

/// Why an operation was refused.
#[derive(Clone, Copy, Debug, PartialEq, Eq, Structural)]
pub enum ApiError {
    /// A referenced assignment, submission, user, file or link is absent.
    NotFound,
    /// The actor's role or ownership does not allow the operation.
    Forbidden,
    /// The store could not take the change (an identity is already in use).
    InternalError,
    /// The input breaks a rule on its shape.
    ValidationError,
}

} // verus!
