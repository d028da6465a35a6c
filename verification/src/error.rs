//! Errors of the aggregate.

use vstd::prelude::*;

verus! {

/// Why an operation of the aggregate failed.
#[derive(Debug)]
pub enum ApproxDistinctError {
    /// Something that a correct query plan rules out.
    Internal(String),
    /// Something that the aggregate does not offer.
    NotImplemented(String),
    /// An error that an outside crate reported.
    Outside(datafusion_common::DataFusionError),
}

impl ApproxDistinctError {
    /// An internal error with a given message.
    pub open spec fn is_internal(self, message: Seq<char>) -> bool {
        self matches ApproxDistinctError::Internal(text) && text@ == message
    }

    /// A missing feature with a given message.
    pub open spec fn is_not_implemented(self, message: Seq<char>) -> bool {
        self matches ApproxDistinctError::NotImplemented(text) && text@ == message
    }
}

/// A result is what an operation owes: success, or an internal error with a given message.
pub open spec fn succeeds_unless<A>(
    result: Result<A, ApproxDistinctError>,
    message: Option<Seq<char>>,
) -> bool {
    match message {
        None => result is Ok,
        Some(text) => result is Err && result->Err_0.is_internal(text),
    }
}

/// Two results tell the caller the same. Errors of outside crates are not told apart.
pub open spec fn same_outcome(
    x: Result<(), ApproxDistinctError>,
    y: Result<(), ApproxDistinctError>,
) -> bool {
    match (x, y) {
        (Ok(_), Ok(_)) => true,
        (Err(ApproxDistinctError::Internal(a)), Err(ApproxDistinctError::Internal(b))) => a@ == b@,
        (
            Err(ApproxDistinctError::NotImplemented(a)),
            Err(ApproxDistinctError::NotImplemented(b)),
        ) => a@ == b@,
        (Err(ApproxDistinctError::Outside(_)), Err(ApproxDistinctError::Outside(_))) => true,
        _ => false,
    }
}

/// Hands on the result of an outside call.
pub fn handed_on<A>(result: Result<A, datafusion_common::DataFusionError>) -> (r: Result<
    A,
    ApproxDistinctError,
>)
    ensures
        match result {
            Ok(value) => r == Ok::<A, ApproxDistinctError>(value),
            Err(e) => r == Err::<A, ApproxDistinctError>(ApproxDistinctError::Outside(e)),
        },
{
    match result {
        Ok(value) => Ok(value),
        Err(e) => Err(ApproxDistinctError::Outside(e)),
    }
}

} // verus!
