//! Error kinds of the staking ledger.
//!
//! Every error is fatal to the invocation that raised it: the caller is
//! promised that a transition returning an error leaves the ledger unchanged.

use vstd::prelude::*;

verus! {

/// Ghost mirror of [`ContractError`], with string payloads as character
/// sequences, used by the contracts of the transitions.
pub enum ErrV {
    /// Host-surfaced failure (also used for the unimplemented reward claim).
    Std(Seq<char>),
    /// Config update attempted by someone other than the owner.
    PermissionDenied(Seq<char>),
    /// Bond or unbond of a zero amount.
    InvalidAmount,
    /// Caller fails an identity or liveness gate.
    Unauthorized,
    /// Unbond of more than the caller has bonded.
    InsufficientFunds,
    /// Stake row absent for an operation that requires it.
    NotFound,
    /// The payload of the receive envelope failed to decode.
    Decode,
}

/// Why an invocation failed; surfaced to the host unchanged.
#[derive(Debug, Clone)]
pub enum ContractError {
    /// Host-surfaced failure (also used for the unimplemented reward claim).
    Std(String),
    /// Config update attempted by someone other than the owner.
    PermissionDenied(String),
    /// Bond or unbond of a zero amount.
    InvalidAmount,
    /// Caller fails an identity or liveness gate.
    Unauthorized,
    /// Unbond of more than the caller has bonded.
    InsufficientFunds,
    /// Stake row absent for an operation that requires it.
    NotFound,
    /// The payload of the receive envelope failed to decode.
    Decode,
}

impl View for ContractError {
    type V = ErrV;

    open spec fn view(&self) -> ErrV {
        match self {
            ContractError::Std(s) => ErrV::Std(s@),
            ContractError::PermissionDenied(s) => ErrV::PermissionDenied(s@),
            ContractError::InvalidAmount => ErrV::InvalidAmount,
            ContractError::Unauthorized => ErrV::Unauthorized,
            ContractError::InsufficientFunds => ErrV::InsufficientFunds,
            ContractError::NotFound => ErrV::NotFound,
            ContractError::Decode => ErrV::Decode,
        }
    }
}

} // verus!
