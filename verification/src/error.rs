//! The failure taxonomy of the role state machine: one variant per failure
//! category, carrying diagnostic context where useful.

use vstd::prelude::*;
use crate::pskt::Role;

verus! {

/// An error returned by a role-state-machine operation. Every illegal
/// transition or role-mismatched operation yields one of these immediately;
/// nothing is retried internally.
#[derive(Clone, Debug, PartialEq, Eq)]
pub enum Error {
    /// A transition was invoked while the machine is in a role for which
    /// that transition is not defined; carries the observed role.
    WrongRole(Role),
    /// An operation requiring a specific role was invoked in another one;
    /// carries the expected role.
    ExpectedState(Role),
    /// `creator` was invoked on a machine already initialized from an
    /// imported skeleton.
    CreateNotAllowed,
    /// A transition was requested from the initial state without an
    /// imported skeleton.
    NotInitialized,
    /// A constructor input matched none of the accepted forms.
    InvalidPayload,
    /// Converting an existing transaction into a skeleton failed because
    /// the input data was malformed.
    ConstructorConversionError,
    /// Extraction was attempted before finalization produced a complete
    /// set of unlocking scripts.
    TxNotFinalized,
    /// A free-form message for conditions not covered above.
    Custom(String),
}

/// Specification view of an [`Error`].
#[verifier::ext_equal]
pub enum ErrorV {
    WrongRole(Role),
    ExpectedState(Role),
    CreateNotAllowed,
    NotInitialized,
    InvalidPayload,
    ConstructorConversionError,
    TxNotFinalized,
    Custom(Seq<char>),
}

impl View for Error {
    type V = ErrorV;

    open spec fn view(&self) -> ErrorV {
        match self {
            Error::WrongRole(r) => ErrorV::WrongRole(*r),
            Error::ExpectedState(r) => ErrorV::ExpectedState(*r),
            Error::CreateNotAllowed => ErrorV::CreateNotAllowed,
            Error::NotInitialized => ErrorV::NotInitialized,
            Error::InvalidPayload => ErrorV::InvalidPayload,
            Error::ConstructorConversionError => ErrorV::ConstructorConversionError,
            Error::TxNotFinalized => ErrorV::TxNotFinalized,
            Error::Custom(m) => ErrorV::Custom(m@),
        }
    }
}

} // verus!
