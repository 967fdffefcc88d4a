//! Error taxonomy of the protocol.
//!
//! Every operation is all-or-nothing: an operation that returns an error has
//! not changed any state.  Each variant belongs to one of four kinds:
//! validation errors (wrong signer, missing or duplicate record, receipt in
//! the wrong state), arithmetic errors (overflow in rate or accrual math),
//! insufficient funds (the reward vault is under-funded at claim time, a
//! recoverable condition), and timing errors (a lock or cooldown has not yet
//! elapsed).

use vstd::prelude::*;

verus! {

/// One concrete failure of a protocol operation.
#[derive(Clone, Copy, Debug, PartialEq, Eq, Structural)]
pub enum Error {
    /// A record with the same derived address already exists.
    AlreadyExists,
    /// The addressed record does not exist.
    NotFound,
    /// The signer is neither the farm authority nor a farm manager.
    NotAuthorized,
    /// No whitelist proof matches the staked asset's mint or verified creator.
    NotWhitelisted,
    /// The asset's metadata carries no verified first creator.
    InvalidMetadata,
    /// The stake receipt for this asset is still open.
    AlreadyStaked,
    /// The stake receipt for this asset is already closed.
    AlreadyUnstaked,
    /// The lock's staking duration has not elapsed yet.
    LockNotExpired,
    /// The lock's cooldown after the previous unstake has not elapsed yet.
    CooldownNotExpired,
    /// Overflow, or a clock that ran backwards, in reward arithmetic.
    ArithmeticError,
    /// The farm's reward vault holds less than the accrued reward.
    InsufficientFunds,
}

/// The four kinds of failure the protocol distinguishes for callers.
#[derive(Clone, Copy, Debug, PartialEq, Eq, Structural)]
pub enum ErrorKind {
    /// Retrying with the same input reproduces the failure.
    Validation,
    /// Overflow in rate or accrual computation; fatal to the operation.
    Arithmetic,
    /// The farm operator should fund the vault; the caller may retry.
    InsufficientFunds,
    /// The caller must wait; the operation will succeed later.
    Timing,
}

impl Error {
    /// The kind an error variant belongs to.
    pub open spec fn kind_spec(&self) -> ErrorKind {
        match self {
            Error::AlreadyExists => ErrorKind::Validation,
            Error::NotFound => ErrorKind::Validation,
            Error::NotAuthorized => ErrorKind::Validation,
            Error::NotWhitelisted => ErrorKind::Validation,
            Error::InvalidMetadata => ErrorKind::Validation,
            Error::AlreadyStaked => ErrorKind::Validation,
            Error::AlreadyUnstaked => ErrorKind::Validation,
            Error::LockNotExpired => ErrorKind::Timing,
            Error::CooldownNotExpired => ErrorKind::Timing,
            Error::ArithmeticError => ErrorKind::Arithmetic,
            Error::InsufficientFunds => ErrorKind::InsufficientFunds,
        }
    }

    /// Classifies the error for callers deciding whether to retry.
    #[verifier::when_used_as_spec(kind_spec)]
    pub fn kind(&self) -> (k: ErrorKind)
        ensures
            k == self.kind_spec(),
    {
        match self {
            Error::AlreadyExists => ErrorKind::Validation,
            Error::NotFound => ErrorKind::Validation,
            Error::NotAuthorized => ErrorKind::Validation,
            Error::NotWhitelisted => ErrorKind::Validation,
            Error::InvalidMetadata => ErrorKind::Validation,
            Error::AlreadyStaked => ErrorKind::Validation,
            Error::AlreadyUnstaked => ErrorKind::Validation,
            Error::LockNotExpired => ErrorKind::Timing,
            Error::CooldownNotExpired => ErrorKind::Timing,
            Error::ArithmeticError => ErrorKind::Arithmetic,
            Error::InsufficientFunds => ErrorKind::InsufficientFunds,
        }
    }
}

} // verus!
