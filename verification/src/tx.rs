//! The MintNFT transaction: the signed request that asks the ledger to mint
//! a fresh non-fungible token.

use vstd::prelude::*;

use crate::bytes::{push_array_20, push_array_32, push_u32_be, push_u64_be, read_array_20, u32_be,
    u64_be};
use crate::fee::{fee_bytes_of, fee_packable, is_fee_amount_packable, pack_fee_amount,
    FEE_MAX_PACKABLE};
use crate::keccak::{keccak256_digest, keccak_of};
use crate::params::{MAX_ACCOUNT_ID, MAX_FUNGIBLE_TOKEN_ID, MINT_NFT_TX_TYPE};
use crate::types::{Address, ContentHash};

verus! {

/// The window of time in which a transaction is valid.
#[derive(Clone, Copy, Debug, PartialEq, Eq, Structural)]
pub struct TimeRange {
    /// First second (inclusive) at which the transaction may execute.
    pub valid_from: u64,
    /// Last second (inclusive) at which the transaction may execute.
    pub valid_until: u64,
}

impl TimeRange {
    /// A range bounded on both sides.
    pub fn new(valid_from: u64, valid_until: u64) -> (r: TimeRange)
        ensures
            r.valid_from == valid_from,
            r.valid_until == valid_until,
    {
        TimeRange { valid_from, valid_until }
    }

    /// The unbounded range that decoded transactions default to.
    pub fn unbounded() -> (r: TimeRange)
        ensures
            r.valid_from == 0,
            r.valid_until == u64::MAX,
    {
        TimeRange { valid_from: 0, valid_until: u64::MAX }
    }

    /// A range is sound when it does not end before it starts.
    pub fn check_correctness(&self) -> (r: bool)
        ensures
            r == (self.valid_from <= self.valid_until),
    {
        self.valid_from <= self.valid_until
    }
}

/// A request to mint a fresh NFT carrying `content_hash` to `recipient`.
///
/// The rollup signature over [`MintNFT::get_bytes`] is checked by the
/// external signed-transaction validator before the request reaches the
/// handlers; this type carries the fields that the ledger rules read.
#[derive(Clone, Copy, Debug, PartialEq, Eq)]
pub struct MintNFT {
    /// Account id of the NFT creator, who pays the fee.
    pub creator_id: u32,
    /// Address of the creator account.
    pub creator_address: Address,
    /// Hash of the content the token stands for.
    pub content_hash: ContentHash,
    /// Address of the account that receives the token.
    pub recipient: Address,
    /// Fee paid to the operator.
    pub fee: u128,
    /// Token in which the fee is paid.
    pub fee_token: u32,
    /// Creator account nonce at submission time.
    pub nonce: u32,
    /// When the transaction is allowed to execute.
    pub time_range: TimeRange,
}

/// The canonical byte encoding over which the rollup signature is made.
pub open spec fn sign_bytes(tx: MintNFT) -> Seq<u8> {
    seq![MINT_NFT_TX_TYPE] + u32_be(tx.creator_id) + tx.creator_address@ + tx.content_hash@
        + tx.recipient@ + fee_bytes_of(tx.fee as int) + u32_be(tx.fee_token) + u32_be(tx.nonce)
        + u64_be(tx.time_range.valid_from) + u64_be(tx.time_range.valid_until)
}

/// The pseudo-address a minted NFT lives at: the last 20 bytes of the
/// keccak-256 digest over creator id, serial id and content hash.
pub open spec fn nft_address_bytes(creator_id: u32, serial_id: u32, content_hash: Seq<u8>) -> Seq<
    u8,
> {
    keccak_of(u32_be(creator_id) + u32_be(serial_id) + content_hash).subrange(12, 32)
}

impl MintNFT {
    /// Creates a transaction from all its fields.
    pub fn new(
        creator_id: u32,
        creator_address: Address,
        content_hash: ContentHash,
        recipient: Address,
        fee: u128,
        fee_token: u32,
        nonce: u32,
        time_range: TimeRange,
    ) -> (r: MintNFT)
        ensures
            r == (MintNFT {
                creator_id,
                creator_address,
                content_hash,
                recipient,
                fee,
                fee_token,
                nonce,
                time_range,
            }),
    {
        MintNFT {
            creator_id,
            creator_address,
            content_hash,
            recipient,
            fee,
            fee_token,
            nonce,
            time_range,
        }
    }

    /// Encodes the transaction for signing, per the rollup protocol.
    pub fn get_bytes(&self) -> (r: Vec<u8>)
        requires
            self.fee <= FEE_MAX_PACKABLE,
        ensures
            r@ == sign_bytes(*self),
    {
        let mut out: Vec<u8> = Vec::new();
        out.push(MINT_NFT_TX_TYPE);
        push_u32_be(&mut out, self.creator_id);
        push_array_20(&mut out, &self.creator_address.bytes);
        push_array_32(&mut out, &self.content_hash.bytes);
        push_array_20(&mut out, &self.recipient.bytes);
        let (fee0, fee1) = pack_fee_amount(self.fee);
        out.push(fee0);
        out.push(fee1);
        push_u32_be(&mut out, self.fee_token);
        push_u32_be(&mut out, self.nonce);
        push_u64_be(&mut out, self.time_range.valid_from);
        push_u64_be(&mut out, self.time_range.valid_until);
        proof {
            assert(out@ =~= sign_bytes(*self));
        }
        out
    }

    /// Verifies the transaction's own field rules: the creator id and fee
    /// token in range, the fee representable in the packed format, and the
    /// time range sound.  The rollup signature itself is checked by the
    /// external signed-transaction validator.
    pub fn check_correctness(&self) -> (r: bool)
        ensures
            r == (fee_packable(self.fee as int) && self.creator_id <= MAX_ACCOUNT_ID
                && self.fee_token <= MAX_FUNGIBLE_TOKEN_ID && self.time_range.valid_from
                <= self.time_range.valid_until),
    {
        is_fee_amount_packable(self.fee) && self.creator_id <= MAX_ACCOUNT_ID && self.fee_token
            <= MAX_FUNGIBLE_TOKEN_ID && self.time_range.check_correctness()
    }

    /// The address the token minted with `serial_id` will live at.
    pub fn calculate_address(&self, serial_id: u32) -> (r: Address)
        ensures
            r@ == nft_address_bytes(self.creator_id, serial_id, self.content_hash@),
    {
        let mut data: Vec<u8> = Vec::new();
        push_u32_be(&mut data, self.creator_id);
        push_u32_be(&mut data, serial_id);
        push_array_32(&mut data, &self.content_hash.bytes);
        proof {
            assert(data@ =~= u32_be(self.creator_id) + u32_be(serial_id) + self.content_hash@);
        }
        let digest = keccak256_digest(&data);
        let bytes = read_array_20(&digest, 12);
        Address { bytes }
    }
}

} // verus!
