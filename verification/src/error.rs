use vstd::prelude::*;

verus! {

/// Why an operation was refused. A refused operation has no effect.
#[derive(Clone, Copy, Debug, PartialEq, Eq, Structural)]
pub enum Error {
    /// A monetary amount is not positive.
    InvalidAmount,
    /// A due date is not in the future.
    InvalidDueDate,
    /// A stake duration lies outside the pool's bounds.
    InvalidDuration,
    /// The record's status does not permit the operation.
    InvalidState,
    /// No record is kept under the given identifier.
    NotFound,
    /// The principal did not authorize the call, or lacks the role it needs.
    Unauthorized,
    /// A value violates a configured numeric bound.
    OutOfRange,
    /// A funding request exceeds the pool's available liquidity.
    InsufficientLiquidity,
    /// A stake is smaller than the pool's minimum.
    BelowMinimum,
}

} // verus!
