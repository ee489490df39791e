use vstd::prelude::*;

verus! {

/// Why a store operation failed.
#[derive(Clone, Copy, Debug, PartialEq, Eq, Structural)]
pub enum StoreError {
    /// A referenced id does not exist.
    NotFound,
    /// The operation would break an invariant of the stored data.
    Conflict,
    /// An input value is malformed.
    InvalidArgument,
    /// The requested state transition is not allowed.
    InvalidState,
    /// The underlying store could not carry out the operation.
    StoreUnavailable,
}

} // verus!
