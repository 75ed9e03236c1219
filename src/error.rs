//! The kinds of failure that lending operations report.

use vstd::prelude::*;

verus! {

/// A failed lending operation.
#[derive(Clone, Copy, Debug, PartialEq, Eq, Structural)]
pub enum AppError {
    /// The referenced book does not exist.
    NotFound,
    /// A business rule forbids the operation: the book is already checked
    /// out, or a return does not match the book's active checkout.
    Conflict,
    /// A write that had to affect exactly one row affected none.
    WriteAnomaly,
    /// The store could not commit, serialization aborts included.
    TransactionFailure,
    /// The store could not be reached or failed while running a statement.
    StoreUnavailable,
    /// A stored value could not be read back as an identifier.
    ConversionFailure,
}

/// The HTTP status that reports an error of this kind.
pub open spec fn status_of(e: AppError) -> u16 {
    match e {
        AppError::NotFound => 404,
        AppError::Conflict => 422,
        _ => 500,
    }
}

impl AppError {
    /// The HTTP status under which the error is reported to a client.
    pub fn status_code(&self) -> (r: u16)
        ensures
            r == status_of(*self),
    {
        match self {
            AppError::NotFound => 404,
            AppError::Conflict => 422,
            AppError::WriteAnomaly => 500,
            AppError::TransactionFailure => 500,
            AppError::StoreUnavailable => 500,
            AppError::ConversionFailure => 500,
        }
    }

    /// Whether the caller may retry the whole operation: only a failed
    /// commit is worth another attempt.
    pub fn is_retryable(&self) -> (r: bool)
        ensures
            r == (*self == AppError::TransactionFailure),
    {
        match self {
            AppError::TransactionFailure => true,
            _ => false,
        }
    }
}

} // verus!
