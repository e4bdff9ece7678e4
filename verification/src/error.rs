//! The failure taxonomy. Every error is a terminal validation failure
//! surfaced to the caller; an engine that returns one leaves the store
//! untouched.

use vstd::prelude::*;

verus! {

/// Why a call was rejected. All variants are terminal, non-retryable
/// validation failures; none is recovered internally.
#[derive(Clone, Copy, Debug, PartialEq, Eq, Structural)]
pub enum ContractError {
    ValidationError,
    NotAuthorized,
    InsufficientFunds,
    ExcessiveFunds,
    NotActive,
    NotDeciding,
    InvalidChoice,
    DeliberationsExpired,
    NotDecided,
    HasClaimed,
    InvalidWeight,
}

impl ContractError {
    /// The error's name, for display at the host boundary.
    pub fn describe(&self) -> (r: &'static str)
        ensures
            r@ == error_text(*self),
    {
        match self {
            ContractError::ValidationError => "ValidationError",
            ContractError::NotAuthorized => "NotAuthorized",
            ContractError::InsufficientFunds => "InsufficientFunds",
            ContractError::ExcessiveFunds => "ExcessiveFunds",
            ContractError::NotActive => "NotActive",
            ContractError::NotDeciding => "NotDeciding",
            ContractError::InvalidChoice => "InvalidChoice",
            ContractError::DeliberationsExpired => "DeliberationsExpired",
            ContractError::NotDecided => "NotDecided",
            ContractError::HasClaimed => "HasClaimed",
            ContractError::InvalidWeight => "InvalidWeight",
        }
    }
}

/// The text `describe` returns for each variant.
pub open spec fn error_text(e: ContractError) -> Seq<char> {
    match e {
        ContractError::ValidationError => "ValidationError"@,
        ContractError::NotAuthorized => "NotAuthorized"@,
        ContractError::InsufficientFunds => "InsufficientFunds"@,
        ContractError::ExcessiveFunds => "ExcessiveFunds"@,
        ContractError::NotActive => "NotActive"@,
        ContractError::NotDeciding => "NotDeciding"@,
        ContractError::InvalidChoice => "InvalidChoice"@,
        ContractError::DeliberationsExpired => "DeliberationsExpired"@,
        ContractError::NotDecided => "NotDecided"@,
        ContractError::HasClaimed => "HasClaimed"@,
        ContractError::InvalidWeight => "InvalidWeight"@,
    }
}

} // verus!
