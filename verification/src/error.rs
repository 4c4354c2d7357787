//! The ways in which a record can fail.

use vstd::prelude::*;

verus! {

/// Why a transaction, a block or a key pair was not accepted.
#[derive(Debug, Clone, Copy, PartialEq, Eq, Structural)]
pub enum LedgerError {
    /// The transaction was never signed.
    EmptySignature,
    /// A signature is present but does not verify.
    InvalidSignature,
    /// A block does not name the hash of the block before it.
    InvalidPreviousHash,
    /// A block's nonce does not satisfy the difficulty.
    InvalidProof,
    /// The system's random source gave no usable key material.
    RandomSourceUnavailable,
}

impl LedgerError {
    /// A short description of the failure.
    pub fn message(&self) -> (r: &'static str)
        ensures
            r@ == spec_message(*self),
    {
        match self {
            LedgerError::EmptySignature => "transaction's sign is empty.",
            LedgerError::InvalidSignature => "invalid sign.",
            LedgerError::InvalidPreviousHash => "invalid previous hash.",
            LedgerError::InvalidProof => "invalid nonce.",
            LedgerError::RandomSourceUnavailable => "random source unavailable.",
        }
    }
}

/// The text that `LedgerError::message` gives for each failure.
pub open spec fn spec_message(e: LedgerError) -> Seq<char> {
    match e {
        LedgerError::EmptySignature => "transaction's sign is empty."@,
        LedgerError::InvalidSignature => "invalid sign."@,
        LedgerError::InvalidPreviousHash => "invalid previous hash."@,
        LedgerError::InvalidProof => "invalid nonce."@,
        LedgerError::RandomSourceUnavailable => "random source unavailable."@,
    }
}

} // verus!
