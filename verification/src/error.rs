//! The ways in which a call can be rejected.

use cosmwasm_std::StdError;
use vstd::prelude::*;

verus! {

/// `cosmwasm_std::StdError`, the error of the host's storage and address
/// services. It is carried through untouched: nothing is assumed about what a
/// value of it holds.
#[verifier::external_type_specification]
#[verifier::external_body]
pub struct ExStdError(StdError);

/// A rejection of a call. No state changes when one is returned.
#[derive(Debug)]
pub enum ContractError {
    /// A failure of the host's storage or address service, passed on as it came.
    Std(StdError),
    /// A failure described in words. No operation of the ledger returns it.
    CustomError { val: String },
    /// The caller lacks the right to do this, or a vote names no option of the poll.
    Unauthorized {},
    /// A poll was to be opened with more options than a poll may have.
    TooManyOptions {},
    /// The payment attached to the call does not meet the fee.
    BadDenom {},
    /// The caller holds no stake. No operation of the ledger returns it.
    NotStaked {},
    /// A vote was cast on a poll that is closed.
    ClosedPoll {},
    /// The call names a poll that does not exist.
    NoPoll {},
    /// A failure without a known cause. No operation of the ledger returns it.
    WeirdProblem {},
    /// A poll was to be opened under an identifier that is already taken.
    PollExists {},
}

} // verus!
