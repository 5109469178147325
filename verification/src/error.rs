//! Error taxonomy of the reward core.

use vstd::prelude::*;

verus! {

/// Every way a core operation can fail. Each failure is detected before any
/// state mutation, so an operation that returns one of these has changed
/// nothing.
#[derive(Clone, Copy, Debug, PartialEq, Eq, Structural)]
pub enum MorError {
    /// The identity oracle rejected the owner/machine relationship.
    DidAuthorizationFailed,
    /// The pot does not hold enough free balance for the requested payout.
    InsufficientTokensInPot,
    /// The machine identity already has a registry entry, under any owner.
    MachineAlreadyRegistered,
    /// The machine identity has no registry entry.
    MachineNotRegistered,
    /// A machine-usage payment lies outside the configured fee range.
    MachinePaymentOutOfRange,
    /// The registry holds the machine under a different owner than the caller.
    MorAuthorizationFailed,
    /// A candidate configuration failed the consistency check.
    MorConfigIsNotConsistent,
    /// Tokens could not be moved between accounts.
    TokensCouldNotBeTransfered,
    /// The identity oracle failed in a way outside the recognized taxonomy.
    UnexpectedDidError,
}

/// Result of a core operation.
pub type MorResult<T> = Result<T, MorError>;

/// Failure verdicts of the external identity oracle. The oracle itself runs
/// outside this library; callers hand its verdict about an owner/machine
/// pair into the operations below.
#[derive(Clone, Copy, Debug, PartialEq, Eq, Structural)]
pub enum DidError {
    /// The owner does not control the machine identity.
    AuthorizationFailed,
    /// The machine identity is unknown to the oracle.
    NotFound,
    /// The oracle could not create an attribute.
    FailedCreate,
    /// The oracle could not update an attribute.
    FailedUpdate,
}

/// How an oracle failure reads in the core's taxonomy: an authorization
/// rejection keeps its meaning, anything else is surfaced as unexpected.
pub open spec fn mor_of_did(err: DidError) -> MorError {
    if err == DidError::AuthorizationFailed {
        MorError::DidAuthorizationFailed
    } else {
        MorError::UnexpectedDidError
    }
}

impl From<DidError> for MorError {
    /// Maps an oracle failure into the core's taxonomy: an authorization
    /// rejection keeps its meaning, anything else is surfaced as unexpected.
    fn from(err: DidError) -> (r: MorError) {
        match err {
            DidError::AuthorizationFailed => MorError::DidAuthorizationFailed,
            _ => MorError::UnexpectedDidError,
        }
    }
}

impl vstd::std_specs::convert::FromSpecImpl<DidError> for MorError {
    open spec fn obeys_from_spec() -> bool {
        true
    }

    open spec fn from_spec(err: DidError) -> MorError {
        mor_of_did(err)
    }
}

/// Failure of a dispatched operation: either the caller is not entitled to
/// invoke it, or the core itself rejected it.
#[derive(Clone, Copy, Debug, PartialEq, Eq, Structural)]
pub enum Error {
    /// The operation is reserved to another kind of caller.
    BadOrigin,
    /// The core rejected the operation.
    Mor(MorError),
}

impl Error {
    /// Wraps a core error for the dispatch surface.
    pub fn from_mor(err: MorError) -> (r: Error)
        ensures
            r == Error::Mor(err),
    {
        Error::Mor(err)
    }
}

} // verus!
