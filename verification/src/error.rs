//! The errors that ledger operations report.

use vstd::prelude::*;

verus! {

/// Why an operation was refused. A refused operation changes nothing.
#[derive(Clone, Copy, Debug, PartialEq, Eq, Structural)]
pub enum LedgerError {
    /// The fee offered for a new post is not the fixed creation fee.
    InvalidFee,
    /// The amount to stake is not strictly positive.
    ZeroOrNegativeAmount,
    /// No post has the given identifier.
    PostNotFound,
    /// The post no longer accepts stakes.
    PostClosed,
    /// The initiating actor is not the account to be debited.
    AuthorizationFailure,
    /// The debited account cannot cover the amount.
    InsufficientFunds,
}

/// The broad classes of errors, by what a caller can do about them.
#[derive(Clone, Copy, Debug, PartialEq, Eq, Structural)]
pub enum ErrorKind {
    /// The request itself is malformed: a bad fee or a non-positive amount.
    ValidationError,
    /// The post is missing or not open.
    StateError,
    /// The actor may not move the funds in question.
    AuthorizationFailure,
    /// The value could not be moved.
    ResourceError,
}

/// The opaque signal with which a value transfer fails.
#[derive(Clone, Copy, Debug, PartialEq, Eq, Structural)]
pub struct TransferFailure {}

impl LedgerError {
    /// The class an error belongs to.
    pub open spec fn spec_kind(self) -> ErrorKind {
        match self {
            LedgerError::InvalidFee => ErrorKind::ValidationError,
            LedgerError::ZeroOrNegativeAmount => ErrorKind::ValidationError,
            LedgerError::PostNotFound => ErrorKind::StateError,
            LedgerError::PostClosed => ErrorKind::StateError,
            LedgerError::AuthorizationFailure => ErrorKind::AuthorizationFailure,
            LedgerError::InsufficientFunds => ErrorKind::ResourceError,
        }
    }

    /// The class an error belongs to.
    #[verifier::when_used_as_spec(spec_kind)]
    pub fn kind(self) -> (kind: ErrorKind)
        ensures
            kind == self.spec_kind(),
    {
        match self {
            LedgerError::InvalidFee => ErrorKind::ValidationError,
            LedgerError::ZeroOrNegativeAmount => ErrorKind::ValidationError,
            LedgerError::PostNotFound => ErrorKind::StateError,
            LedgerError::PostClosed => ErrorKind::StateError,
            LedgerError::AuthorizationFailure => ErrorKind::AuthorizationFailure,
            LedgerError::InsufficientFunds => ErrorKind::ResourceError,
        }
    }
}

} // verus!
