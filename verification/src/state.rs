//! The operation handler: validates a MintNFT request against the ledger and
//! applies it, producing the ordered account updates of the operation.
//!
//! Application is atomic: all updates are computed against a scratch copy of
//! the ledger, and the live ledger is replaced only on success, so any
//! failure leaves it untouched.

use vstd::prelude::*;

use crate::account::{AccountMap, Nft};
use crate::errors::{FatalError, TxFailure, TxValidationError};
use crate::op::MintNFTOp;
use crate::params::{MAX_FUNGIBLE_TOKEN_ID, MIN_NFT_TOKEN_ID, NFT_STORAGE_ACCOUNT_ID, NFT_TOKEN_ID};
use crate::tx::{nft_address_bytes, MintNFT};
use crate::update::{
    apply_updates_s, lemma_apply_append, lemma_apply_single, update_coherent, updates_coherent,
    AccountUpdate,
};
use crate::types::Address;

verus! {

/// The fee one applied operation collects for the operator.
#[derive(Clone, Copy, Debug, PartialEq, Eq)]
pub struct CollectedFee {
    /// Token the fee is paid in.
    pub token: u32,
    /// Fee amount.
    pub amount: u128,
}

/// The result of successfully applying a transaction.
pub struct OpSuccess {
    /// The collected fee, if the operation charges one.
    pub fee: Option<CollectedFee>,
    /// The ordered ledger deltas the operation produced.
    pub updates: Vec<(u32, AccountUpdate)>,
    /// The validated operation, ready for pubdata serialization.
    pub executed_op: MintNFTOp,
}

/// The authoritative in-memory ledger that operations are applied to.
pub struct ZkSyncState {
    /// The account map, mutated only through account updates.
    pub accounts: AccountMap,
}

/// The global NFT counter: the reserved balance slot of the storage account,
/// or its seed value while that account does not exist yet.
pub open spec fn counter_of(s: Map<u32, Option<crate::account::AccountV>>) -> u128 {
    if s[NFT_STORAGE_ACCOUNT_ID] is Some {
        s[NFT_STORAGE_ACCOUNT_ID]->0.balances[NFT_TOKEN_ID]
    } else {
        MIN_NFT_TOKEN_ID as u128
    }
}

/// The serial id derived from the creator's bumped per-creator counter:
/// the new counter value when it fits 32 bits, zero otherwise.
pub open spec fn serial_from(new_count: u128) -> u32 {
    if new_count <= u32::MAX {
        new_count as u32
    } else {
        0
    }
}

/// The common shape of a healthy mint: neither party is the reserved counter
/// account, the counter has room below the reserved token id, and the
/// creator's serial slot has room.
pub open spec fn mint_normal_case(
    s: Map<u32, Option<crate::account::AccountV>>,
    op: MintNFTOp,
) -> bool {
    &&& op.creator_account_id != NFT_STORAGE_ACCOUNT_ID
    &&& op.recipient_account_id != NFT_STORAGE_ACCOUNT_ID
    &&& counter_of(s) + 1 < NFT_TOKEN_ID
    &&& (s[op.creator_account_id] is Some ==> s[op.creator_account_id]->0.balances[NFT_TOKEN_ID]
        < u128::MAX)
}

/// The exact ledger deltas a normal-case mint emits, in order: the
/// counter-account creation pair when that account is absent, the counter
/// bump minting the fresh id, the creator's serial-and-nonce bump, the NFT
/// metadata record, and the recipient's credit.  This ordered sequence is
/// what `commit` stores and replay folds.
pub open spec fn mint_update_records(
    s: Map<u32, Option<crate::account::AccountV>>,
    op: MintNFTOp,
    ups: Seq<(u32, AccountUpdate)>,
) -> bool {
    let created = s[NFT_STORAGE_ACCOUNT_ID] is None;
    let base: int = if created {
        2
    } else {
        0
    };
    let c = counter_of(s);
    let tid = (c + 1) as u32;
    let storage_nonce: u32 = if created {
        0
    } else {
        s[NFT_STORAGE_ACCOUNT_ID]->0.nonce
    };
    let creator_bal = s[op.creator_account_id]->0.balances[NFT_TOKEN_ID];
    let serial = serial_from((creator_bal + 1) as u128);
    let rec_nonce: u32 = if op.recipient_account_id == op.creator_account_id {
        (op.tx.nonce + 1) as u32
    } else {
        s[op.recipient_account_id]->0.nonce
    };
    &&& ups.len() == base + 4
    &&& (created ==> {
        &&& ups[0].0 == NFT_STORAGE_ACCOUNT_ID
        &&& (ups[0].1 matches AccountUpdate::Create { address, nonce } && address@
            == crate::types::nft_storage_address_seq() && nonce == 0)
        &&& ups[1] == (
        NFT_STORAGE_ACCOUNT_ID,
        AccountUpdate::UpdateBalance {
            token: NFT_TOKEN_ID,
            old_balance: 0,
            new_balance: MIN_NFT_TOKEN_ID as u128,
            old_nonce: 0,
            new_nonce: 0,
        },
        )
    })
    &&& ups[base] == (
    NFT_STORAGE_ACCOUNT_ID,
    AccountUpdate::UpdateBalance {
        token: NFT_TOKEN_ID,
        old_balance: c,
        new_balance: (c + 1) as u128,
        old_nonce: storage_nonce,
        new_nonce: storage_nonce,
    },
    )
    &&& ups[base + 1] == (
    op.creator_account_id,
    AccountUpdate::UpdateBalance {
        token: NFT_TOKEN_ID,
        old_balance: creator_bal,
        new_balance: (creator_bal + 1) as u128,
        old_nonce: op.tx.nonce,
        new_nonce: (op.tx.nonce + 1) as u32,
    },
    )
    &&& ups[base + 2].0 == op.creator_account_id
    &&& (ups[base + 2].1 matches AccountUpdate::MintNFT { token } && token.id == tid
        && token.serial_id == serial && token.creator_id == op.tx.creator_id && token.content_hash
        == op.tx.content_hash && token.address@ == nft_address_bytes(
        op.tx.creator_id,
        serial,
        op.tx.content_hash@,
    ))
    &&& ups[base + 3] == (
    op.recipient_account_id,
    AccountUpdate::UpdateBalance {
        token: tid,
        old_balance: 0,
        new_balance: 1,
        old_nonce: rec_nonce,
        new_nonce: rec_nonce,
    },
    )
}

/// Every condition under which a mint is owed success when `rid` is the
/// resolved recipient: the request passes validation against the ledger,
/// the parties are in the normal shape, and the fresh token id is unseen on
/// both sides.
pub open spec fn mint_accepted(
    s: Map<u32, Option<crate::account::AccountV>>,
    tx: MintNFT,
    rid: u32,
) -> bool {
    let op = MintNFTOp { tx, creator_account_id: tx.creator_id, recipient_account_id: rid };
    let tid = (counter_of(s) + 1) as u32;
    &&& mint_normal_case(s, op)
    &&& s[tx.creator_id] is Some
    &&& s[tx.creator_id]->0.nonce == tx.nonce
    &&& s[tx.creator_id]->0.minted[tid] is None
    &&& s[rid] is Some
    &&& s[rid]->0.balances[tid] == 0
}

impl ZkSyncState {
    /// Internal representation soundness.
    pub open spec fn wf(&self) -> bool {
        self.accounts.wf()
    }

    /// An empty ledger.
    pub fn new() -> (r: ZkSyncState)
        ensures
            r.wf(),
            r.accounts@ == Map::new(|id: u32| true, |id: u32| None::<crate::account::AccountV>),
    {
        ZkSyncState { accounts: AccountMap::new() }
    }

    /// Validates a request against the ledger and resolves its account ids.
    ///
    /// Checks, in order: the fee token is within the supported fungible
    /// range, the recipient is not the zero address, and an account is
    /// registered at the recipient address.
    pub fn create_op(&self, tx: MintNFT) -> (r: Result<MintNFTOp, TxValidationError>)
        requires
            self.wf(),
        ensures
            r matches Ok(op) ==> {
                &&& op.tx == tx
                &&& op.creator_account_id == tx.creator_id
                &&& self.accounts@[op.recipient_account_id] is Some
                &&& self.accounts@[op.recipient_account_id]->0.address == tx.recipient@
                &&& tx.fee_token <= MAX_FUNGIBLE_TOKEN_ID
            },
            r matches Err(e) ==> match e {
                TxValidationError::FeeTokenNotSupported => tx.fee_token > MAX_FUNGIBLE_TOKEN_ID,
                TxValidationError::RecipientAddressIsZero => tx.fee_token <= MAX_FUNGIBLE_TOKEN_ID
                    && tx.recipient@ == Seq::new(20, |i: int| 0u8),
                TxValidationError::RecipientAccountNotFound => tx.fee_token
                    <= MAX_FUNGIBLE_TOKEN_ID && tx.recipient@ != Seq::new(20, |i: int| 0u8)
                    && (forall|id: u32|
                    (#[trigger] self.accounts@[id]) is Some ==> self.accounts@[id]->0.address
                        != tx.recipient@),
                _ => false,
            },
            r is Err <==> tx.fee_token > MAX_FUNGIBLE_TOKEN_ID || tx.recipient@ == Seq::new(
                20,
                |i: int| 0u8,
            ) || (forall|id: u32|
                (#[trigger] self.accounts@[id]) is Some ==> self.accounts@[id]->0.address
                    != tx.recipient@),
    {
        if tx.fee_token > MAX_FUNGIBLE_TOKEN_ID {
            return Err(TxValidationError::FeeTokenNotSupported);
        }
        if tx.recipient.is_zero() {
            return Err(TxValidationError::RecipientAddressIsZero);
        }
        match self.accounts.get_account_by_address(&tx.recipient) {
            Some(recipient) => Ok(
                MintNFTOp { creator_account_id: tx.creator_id, recipient_account_id: recipient, tx },
            ),
            None => Err(TxValidationError::RecipientAccountNotFound),
        }
    }

    /// Whether the signer that the external signed-transaction validator
    /// recovered is the key registered on the account.  Recovery itself is
    /// the collaborator's work; the ledger comparison is decided here.
    pub fn signer_matches_account(&self, id: u32, recovered: &crate::types::PubKeyHash) -> (r:
        bool)
        requires
            self.wf(),
            self.accounts@[id] is Some,
        ensures
            r == (self.accounts@[id]->0.pub_key_hash == recovered@),
    {
        let registered = self.accounts.pub_key_hash_of(id);
        registered.same_as(recovered)
    }

    /// Validates and applies a transaction in one step.
    pub fn apply_tx(&mut self, tx: MintNFT) -> (r: Result<OpSuccess, TxFailure>)
        requires
            old(self).wf(),
            tx.nonce < u32::MAX,
        ensures
            final(self).wf(),
            r matches Ok(s) ==> {
                &&& s.executed_op.tx == tx
                &&& s.executed_op.creator_account_id == tx.creator_id
                &&& old(self).accounts@[s.executed_op.recipient_account_id] is Some
                &&& old(self).accounts@[s.executed_op.recipient_account_id]->0.address
                    == tx.recipient@
                &&& updates_coherent(old(self).accounts@, s.updates@)
                &&& final(self).accounts@ == apply_updates_s(old(self).accounts@, s.updates@)
                &&& s.fee == Some(CollectedFee { token: tx.fee_token, amount: tx.fee })
                &&& mint_accepted(old(self).accounts@, tx, s.executed_op.recipient_account_id)
                    ==> mint_update_records(old(self).accounts@, s.executed_op, s.updates@)
            },
            r is Err ==> *final(self) == *old(self),
            r == Err::<OpSuccess, TxFailure>(
                TxFailure::Validation(TxValidationError::FeeTokenNotSupported),
            ) <==> tx.fee_token > MAX_FUNGIBLE_TOKEN_ID,
            r == Err::<OpSuccess, TxFailure>(
                TxFailure::Validation(TxValidationError::RecipientAddressIsZero),
            ) <==> tx.fee_token <= MAX_FUNGIBLE_TOKEN_ID && tx.recipient@ == Seq::new(
                20,
                |i: int| 0u8,
            ),
            r == Err::<OpSuccess, TxFailure>(
                TxFailure::Validation(TxValidationError::RecipientAccountNotFound),
            ) <==> tx.fee_token <= MAX_FUNGIBLE_TOKEN_ID && tx.recipient@ != Seq::new(
                20,
                |i: int| 0u8,
            ) && (forall|id: u32|
                (#[trigger] old(self).accounts@[id]) is Some ==> old(self).accounts@[id]->0.address
                    != tx.recipient@),
            r matches Err(TxFailure::Validation(e)) && e == TxValidationError::CreatorAccountNotFound
                ==> old(self).accounts@[tx.creator_id] is None,
            r matches Err(TxFailure::Validation(e)) && e == TxValidationError::NonceMismatch ==> old(
                self,
            ).accounts@[tx.creator_id] is Some && old(self).accounts@[tx.creator_id]->0.nonce
                != tx.nonce,
            tx.fee_token <= MAX_FUNGIBLE_TOKEN_ID && tx.recipient@ != Seq::new(20, |i: int| 0u8)
                && (exists|id: u32|
                (#[trigger] old(self).accounts@[id]) is Some && old(self).accounts@[id]->0.address
                    == tx.recipient@) && (forall|id: u32|
                (#[trigger] old(self).accounts@[id]) is Some && old(self).accounts@[id]->0.address
                    == tx.recipient@ ==> mint_accepted(old(self).accounts@, tx, id)) ==> r is Ok,
    {
        let op = match self.create_op(tx) {
            Ok(op) => op,
            Err(e) => {
                return Err(TxFailure::Validation(e));
            },
        };
        proof {
            if mint_accepted(old(self).accounts@, tx, op.recipient_account_id) {
                assert(mint_normal_case(old(self).accounts@, op));
            }
        }
        match self.apply_op(&op) {
            Ok((fee, updates)) => Ok(OpSuccess { fee, updates, executed_op: op }),
            Err(e) => {
                proof {
                    if old(self).accounts@[op.recipient_account_id] is Some && old(
                        self,
                    ).accounts@[op.recipient_account_id]->0.address == tx.recipient@
                        && mint_accepted(old(self).accounts@, tx, op.recipient_account_id) {
                        assert(false);
                    }
                }
                Err(e)
            },
        }
    }

    /// Applies a validated operation, producing its ledger deltas.
    ///
    /// Produces, in order: the counter-account creation pair on first use,
    /// one balance update on the counter account minting a fresh token id,
    /// one balance-and-nonce update plus the NFT metadata record on the
    /// creator, and one balance update crediting the recipient.  A recipient
    /// already holding the freshly minted id is ledger corruption and fails
    /// fatally.
    pub fn apply_op(&mut self, op: &MintNFTOp) -> (r: Result<
        (Option<CollectedFee>, Vec<(u32, AccountUpdate)>),
        TxFailure,
    >)
        requires
            old(self).wf(),
            op.tx.nonce < u32::MAX,
        ensures
            final(self).wf(),
            r matches Ok((fee, updates)) ==> {
                &&& updates_coherent(old(self).accounts@, updates@)
                &&& final(self).accounts@ == apply_updates_s(old(self).accounts@, updates@)
                &&& fee == Some(CollectedFee { token: op.tx.fee_token, amount: op.tx.fee })
                &&& updates@.len() == (if old(self).accounts@[NFT_STORAGE_ACCOUNT_ID] is Some {
                    4int
                } else {
                    6int
                })
            },
            r is Err ==> *final(self) == *old(self),
            r matches Err(TxFailure::Validation(e)) ==> match e {
                TxValidationError::CreatorAccountNotFound => old(
                    self,
                ).accounts@[op.creator_account_id] is None,
                TxValidationError::RecipientAccountNotFound => old(
                    self,
                ).accounts@[op.creator_account_id] is Some && old(
                    self,
                ).accounts@[op.recipient_account_id] is None,
                TxValidationError::NonceMismatch => old(self).accounts@[op.creator_account_id]
                    is Some && old(self).accounts@[op.recipient_account_id] is Some && old(
                    self,
                ).accounts@[op.creator_account_id]->0.nonce != op.tx.nonce,
                _ => false,
            },
            old(self).accounts@[op.creator_account_id] is None <==> r == Err::<
                (Option<CollectedFee>, Vec<(u32, AccountUpdate)>),
                TxFailure,
            >(TxFailure::Validation(TxValidationError::CreatorAccountNotFound)),
            mint_normal_case(old(self).accounts@, *op) && old(
                self,
            ).accounts@[op.creator_account_id] is Some && old(
                self,
            ).accounts@[op.recipient_account_id] is Some && old(
                self,
            ).accounts@[op.creator_account_id]->0.nonce == op.tx.nonce ==> {
                let s0 = old(self).accounts@;
                let tid = (counter_of(s0) + 1) as u32;
                let serial = serial_from(
                    (s0[op.creator_account_id]->0.balances[NFT_TOKEN_ID] + 1) as u128,
                );
                &&& (r is Ok <==> s0[op.creator_account_id]->0.minted[tid] is None
                    && s0[op.recipient_account_id]->0.balances[tid] == 0)
                &&& r is Err ==> r == Err::<
                    (Option<CollectedFee>, Vec<(u32, AccountUpdate)>),
                    TxFailure,
                >(TxFailure::Fatal(FatalError::TokenAlreadyInAccount))
                &&& r is Ok ==> {
                    &&& final(self).accounts@[NFT_STORAGE_ACCOUNT_ID]->0.balances[NFT_TOKEN_ID]
                        == counter_of(s0) + 1
                    &&& final(self).accounts@[NFT_STORAGE_ACCOUNT_ID]->0.address == (
                    if s0[NFT_STORAGE_ACCOUNT_ID] is Some {
                        s0[NFT_STORAGE_ACCOUNT_ID]->0.address
                    } else {
                        crate::types::nft_storage_address_seq()
                    })
                    &&& final(self).accounts@[op.recipient_account_id]->0.balances[tid] == 1
                    &&& final(self).accounts@[op.creator_account_id]->0.nonce == op.tx.nonce + 1
                    &&& final(self).accounts@[op.creator_account_id]->0.minted[tid] matches Some(
                    nft) && nft.id == tid && nft.serial_id == serial && nft.creator_id
                        == op.tx.creator_id && nft.content_hash == op.tx.content_hash
                        && nft.address@ == nft_address_bytes(
                        op.tx.creator_id,
                        serial,
                        op.tx.content_hash@,
                    )
                    &&& (r matches Ok((_, updates)) && mint_update_records(s0, *op, updates@))
                }
            },
    {
        let ghost s0 = old(self).accounts@;
        if !self.accounts.has_account(op.creator_account_id) {
            return Err(TxFailure::Validation(TxValidationError::CreatorAccountNotFound));
        }
        if !self.accounts.has_account(op.recipient_account_id) {
            return Err(TxFailure::Validation(TxValidationError::RecipientAccountNotFound));
        }
        if self.accounts.nonce_of(op.creator_account_id) != op.tx.nonce {
            return Err(TxFailure::Validation(TxValidationError::NonceMismatch));
        }
        let mut scratch = self.accounts.duplicate();
        let mut updates: Vec<(u32, AccountUpdate)> = Vec::new();

        // Lazily create the reserved counter account, seeded at the least
        // NFT token id.
        if !scratch.has_account(NFT_STORAGE_ACCOUNT_ID) {
            let storage_addr = Address::nft_storage_account_address();
            let create = AccountUpdate::Create { address: storage_addr, nonce: 0 };
            proof {
                assert(update_coherent(scratch@, NFT_STORAGE_ACCOUNT_ID, create));
                lemma_apply_single(scratch@, NFT_STORAGE_ACCOUNT_ID, create);
                lemma_apply_append(s0, updates@, seq![(NFT_STORAGE_ACCOUNT_ID, create)]);
                assert(updates@.push((NFT_STORAGE_ACCOUNT_ID, create)) =~= updates@ + seq![
                    (NFT_STORAGE_ACCOUNT_ID, create),
                ]);
            }
            updates.push((NFT_STORAGE_ACCOUNT_ID, create));
            scratch.create_account_with_nonce(NFT_STORAGE_ACCOUNT_ID, storage_addr, 0);

            let seed = AccountUpdate::UpdateBalance {
                token: NFT_TOKEN_ID,
                old_balance: 0,
                new_balance: MIN_NFT_TOKEN_ID as u128,
                old_nonce: 0,
                new_nonce: 0,
            };
            proof {
                assert(update_coherent(scratch@, NFT_STORAGE_ACCOUNT_ID, seed));
                lemma_apply_single(scratch@, NFT_STORAGE_ACCOUNT_ID, seed);
                lemma_apply_append(s0, updates@, seq![(NFT_STORAGE_ACCOUNT_ID, seed)]);
                assert(updates@.push((NFT_STORAGE_ACCOUNT_ID, seed)) =~= updates@ + seq![
                    (NFT_STORAGE_ACCOUNT_ID, seed),
                ]);
            }
            updates.push((NFT_STORAGE_ACCOUNT_ID, seed));
            scratch.apply_balance_update(
                NFT_STORAGE_ACCOUNT_ID,
                NFT_TOKEN_ID,
                MIN_NFT_TOKEN_ID as u128,
                0,
            );
        }

        // Mint a fresh, monotonically increasing token id from the global
        // counter.
        let last_token_id = scratch.balance_of(NFT_STORAGE_ACCOUNT_ID, NFT_TOKEN_ID);
        if last_token_id >= u32::MAX as u128 {
            return Err(TxFailure::Fatal(FatalError::TokenIdOverflow));
        }
        let new_token_id = last_token_id + 1;
        let storage_nonce = scratch.nonce_of(NFT_STORAGE_ACCOUNT_ID);
        let bump = AccountUpdate::UpdateBalance {
            token: NFT_TOKEN_ID,
            old_balance: last_token_id,
            new_balance: new_token_id,
            old_nonce: storage_nonce,
            new_nonce: storage_nonce,
        };
        proof {
            assert(update_coherent(scratch@, NFT_STORAGE_ACCOUNT_ID, bump));
            lemma_apply_single(scratch@, NFT_STORAGE_ACCOUNT_ID, bump);
            lemma_apply_append(s0, updates@, seq![(NFT_STORAGE_ACCOUNT_ID, bump)]);
            assert(updates@.push((NFT_STORAGE_ACCOUNT_ID, bump)) =~= updates@ + seq![
                (NFT_STORAGE_ACCOUNT_ID, bump),
            ]);
        }
        updates.push((NFT_STORAGE_ACCOUNT_ID, bump));
        scratch.apply_balance_update(NFT_STORAGE_ACCOUNT_ID, NFT_TOKEN_ID, new_token_id, storage_nonce);
        let token_id = new_token_id as u32;

        // Bump the creator's serial counter and nonce.
        let old_balance = scratch.balance_of(op.creator_account_id, NFT_TOKEN_ID);
        if old_balance == u128::MAX {
            return Err(TxFailure::Fatal(FatalError::TokenIdOverflow));
        }
        let old_nonce = scratch.nonce_of(op.creator_account_id);
        proof {
            // The creator's nonce is untouched so far (only the counter
            // account changed, and a coinciding creator kept its nonce), so
            // the match checked at entry still holds and the bump cannot
            // overflow.
            assert(old_nonce == op.tx.nonce);
        }
        let new_balance = old_balance + 1;
        let creator_bump = AccountUpdate::UpdateBalance {
            token: NFT_TOKEN_ID,
            old_balance,
            new_balance,
            old_nonce,
            new_nonce: old_nonce + 1,
        };
        proof {
            assert(update_coherent(scratch@, op.creator_account_id, creator_bump));
            lemma_apply_single(scratch@, op.creator_account_id, creator_bump);
            lemma_apply_append(s0, updates@, seq![(op.creator_account_id, creator_bump)]);
            assert(updates@.push((op.creator_account_id, creator_bump)) =~= updates@ + seq![
                (op.creator_account_id, creator_bump),
            ]);
        }
        updates.push((op.creator_account_id, creator_bump));
        scratch.apply_balance_update(
            op.creator_account_id,
            NFT_TOKEN_ID,
            new_balance,
            old_nonce + 1,
        );
        let serial_id: u32 = if new_balance <= u32::MAX as u128 {
            new_balance as u32
        } else {
            0
        };

        // Record the minted token's metadata on the creator.
        let token_address = op.tx.calculate_address(serial_id);
        let nft = Nft {
            id: token_id,
            serial_id,
            creator_id: op.tx.creator_id,
            address: token_address,
            content_hash: op.tx.content_hash,
        };
        if scratch.nft_of(op.creator_account_id, token_id).is_some() {
            return Err(TxFailure::Fatal(FatalError::TokenAlreadyInAccount));
        }
        let mint = AccountUpdate::MintNFT { token: nft };
        proof {
            assert(update_coherent(scratch@, op.creator_account_id, mint));
            lemma_apply_single(scratch@, op.creator_account_id, mint);
            lemma_apply_append(s0, updates@, seq![(op.creator_account_id, mint)]);
            assert(updates@.push((op.creator_account_id, mint)) =~= updates@ + seq![
                (op.creator_account_id, mint),
            ]);
        }
        updates.push((op.creator_account_id, mint));
        scratch.record_nft(op.creator_account_id, token_id, nft);

        // Credit the recipient; a nonzero balance for the fresh id means the
        // ledger is corrupted.
        let old_amount = scratch.balance_of(op.recipient_account_id, token_id);
        if old_amount != 0 {
            return Err(TxFailure::Fatal(FatalError::TokenAlreadyInAccount));
        }
        let recipient_nonce = scratch.nonce_of(op.recipient_account_id);
        let credit = AccountUpdate::UpdateBalance {
            token: token_id,
            old_balance: 0,
            new_balance: 1,
            old_nonce: recipient_nonce,
            new_nonce: recipient_nonce,
        };
        proof {
            assert(update_coherent(scratch@, op.recipient_account_id, credit));
            lemma_apply_single(scratch@, op.recipient_account_id, credit);
            lemma_apply_append(s0, updates@, seq![(op.recipient_account_id, credit)]);
            assert(updates@.push((op.recipient_account_id, credit)) =~= updates@ + seq![
                (op.recipient_account_id, credit),
            ]);
        }
        updates.push((op.recipient_account_id, credit));
        scratch.apply_balance_update(op.recipient_account_id, token_id, 1, recipient_nonce);

        let fee = CollectedFee { token: op.tx.fee_token, amount: op.tx.fee };
        proof {
            if mint_normal_case(s0, *op) && s0[op.creator_account_id] is Some
                && s0[op.recipient_account_id] is Some && s0[op.creator_account_id]->0.nonce
                == op.tx.nonce {
                assert(mint_update_records(s0, *op, updates@));
            }
        }
        self.accounts = scratch;
        Ok((Some(fee), updates))
    }
}

} // verus!
