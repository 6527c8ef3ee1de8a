//! The ways in which a transaction, a block or a query can be refused.

use vstd::prelude::*;

verus! {

/// Why an operation of the ledger was refused. A refusal leaves the state it
/// was asked to change as it was.
#[derive(Clone, Copy, Debug, PartialEq, Eq, Structural)]
pub enum Error {
    /// The signature's components are out of range.
    InvalidSignature,
    /// The transaction's nonce is not the sender's.
    InvalidNonce,
    /// The sender cannot pay the up-front cost.
    InsufficientBalance,
    /// The transaction's gas limit is below its intrinsic gas.
    GasLimitTooLow,
    /// More gas than the block allows.
    BlockGasExceeded,
    /// The header's gas limit is too far from its parent's, or too low.
    InvalidGasLimit,
    /// The header is not younger than its parent.
    InvalidTimestamp,
    /// The header's number does not follow its parent's.
    InvalidBlockNumber,
    /// The proof of work was judged invalid.
    ProofOfWorkInvalid,
    /// The block's parent is not in the chain store.
    UnknownParent,
    /// No such block in the chain store.
    UnknownBlock,
    /// The transaction carries neither initialisation code nor call data.
    MalformedTransaction,
    /// The account already has a balance.
    AccountNotEligible,
    /// A result does not fit in 256 bits.
    Overflow,
}

impl Error {
    /// The variant's name.
    pub fn name(&self) -> (s: &'static str)
        ensures
            s@ == spec_error_name(*self),
    {
        match self {
            Error::InvalidSignature => "InvalidSignature",
            Error::InvalidNonce => "InvalidNonce",
            Error::InsufficientBalance => "InsufficientBalance",
            Error::GasLimitTooLow => "GasLimitTooLow",
            Error::BlockGasExceeded => "BlockGasExceeded",
            Error::InvalidGasLimit => "InvalidGasLimit",
            Error::InvalidTimestamp => "InvalidTimestamp",
            Error::InvalidBlockNumber => "InvalidBlockNumber",
            Error::ProofOfWorkInvalid => "ProofOfWorkInvalid",
            Error::UnknownParent => "UnknownParent",
            Error::UnknownBlock => "UnknownBlock",
            Error::MalformedTransaction => "MalformedTransaction",
            Error::AccountNotEligible => "AccountNotEligible",
            Error::Overflow => "Overflow",
        }
    }
}

/// The name of each variant.
pub open spec fn spec_error_name(e: Error) -> Seq<char> {
    match e {
        Error::InvalidSignature => "InvalidSignature"@,
        Error::InvalidNonce => "InvalidNonce"@,
        Error::InsufficientBalance => "InsufficientBalance"@,
        Error::GasLimitTooLow => "GasLimitTooLow"@,
        Error::BlockGasExceeded => "BlockGasExceeded"@,
        Error::InvalidGasLimit => "InvalidGasLimit"@,
        Error::InvalidTimestamp => "InvalidTimestamp"@,
        Error::InvalidBlockNumber => "InvalidBlockNumber"@,
        Error::ProofOfWorkInvalid => "ProofOfWorkInvalid"@,
        Error::UnknownParent => "UnknownParent"@,
        Error::UnknownBlock => "UnknownBlock"@,
        Error::MalformedTransaction => "MalformedTransaction"@,
        Error::AccountNotEligible => "AccountNotEligible"@,
        Error::Overflow => "Overflow"@,
    }
}

} // verus!
