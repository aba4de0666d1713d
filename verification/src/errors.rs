//! Typed failures of the core, split as the error-handling design demands:
//! validation errors leave the ledger untouched and go back to the caller;
//! fatal errors mean ledger corruption and must stop the sequencing path.

use vstd::prelude::*;

verus! {

/// A rejected transaction; the ledger is untouched.
#[derive(Clone, Copy, Debug, PartialEq, Eq, Structural)]
pub enum TxValidationError {
    /// The fee token id lies above the supported fungible range.
    FeeTokenNotSupported,
    /// The recipient is the all-zero address.
    RecipientAddressIsZero,
    /// No account is registered at the recipient address.
    RecipientAccountNotFound,
    /// The creator account id does not exist.
    CreatorAccountNotFound,
    /// The transaction's nonce does not match the creator's nonce.
    NonceMismatch,
}

/// An internal-consistency violation; the sequencing path must stop.
#[derive(Clone, Copy, Debug, PartialEq, Eq, Structural)]
pub enum FatalError {
    /// The recipient already holds a balance for a freshly minted token id.
    TokenAlreadyInAccount,
    /// The global NFT counter left the token-id range.
    TokenIdOverflow,
    /// A replayed update does not match the ledger it is applied to.
    IncoherentUpdate,
}

/// A failed transaction application.
#[derive(Clone, Copy, Debug, PartialEq, Eq, Structural)]
pub enum TxFailure {
    /// Rejected input; reported to the caller.
    Validation(TxValidationError),
    /// Ledger corruption; aborts the sequencing path.
    Fatal(FatalError),
}

/// A refused state-store call.
#[derive(Clone, Copy, Debug, PartialEq, Eq, Structural)]
pub enum StoreError {
    /// `commit` was called with a block number other than the next one.
    CommitOutOfOrder,
    /// The committed updates do not fit the state they extend.
    CommitIncoherent,
    /// `verify` was called with a block number other than the next one.
    VerifyOutOfOrder,
    /// `verify` ran ahead of the committed chain.
    VerifyAheadOfCommit,
    /// A diff or load names a height that was never committed.
    MissingBlock,
}

impl TxValidationError {
    /// A short description of the rejection.
    pub fn describe(&self) -> (r: &'static str)
        ensures
            r@.len() > 0,
    {
        let r = match self {
            TxValidationError::FeeTokenNotSupported => "Token id is not supported",
            TxValidationError::RecipientAddressIsZero => "Transfer to Account with address 0 is not allowed",
            TxValidationError::RecipientAccountNotFound => "Recipient account does not exist",
            TxValidationError::CreatorAccountNotFound => "Creator account does not exist",
            TxValidationError::NonceMismatch => "Nonce mismatch",
        };
        proof {
            reveal_strlit("Token id is not supported");
            reveal_strlit("Transfer to Account with address 0 is not allowed");
            reveal_strlit("Recipient account does not exist");
            reveal_strlit("Creator account does not exist");
            reveal_strlit("Nonce mismatch");
        }
        r
    }
}

} // verus!
