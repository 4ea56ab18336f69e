//! Typed failures of the lending core.

use vstd::prelude::*;

verus! {

/// Why a lending operation was rejected. Every operation either fully
/// succeeds or returns one of these with no state change.
#[derive(Clone, Copy, Debug, PartialEq, Eq, Structural)]
pub enum Error {
    /// An amount that must be strictly positive was zero or negative.
    InvalidAmount,
    /// No pool is stored under the given id.
    PoolNotFound,
    /// No position is stored for the given user and pool.
    PositionNotFound,
    /// A pool with the given id already exists.
    PoolAlreadyExists,
    /// The pool is paused and rejects mutations.
    PoolPaused,
    /// A fixed-point multiply or add would not fit in an `i128`.
    ArithmeticOverflow,
}

/// Reject an amount that is not strictly positive, as every deposit,
/// withdrawal, borrow and repayment must be.
pub fn validate_amount(amount: i128) -> (r: Result<(), Error>)
    ensures
        r is Ok <==> amount > 0,
        r is Err ==> r == Err::<(), Error>(Error::InvalidAmount),
{
    if amount <= 0 {
        Err(Error::InvalidAmount)
    } else {
        Ok(())
    }
}

} // verus!
