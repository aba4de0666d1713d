//! The validated MintNFT operation and its pubdata codec.
//!
//! Pubdata is the fixed-width binary record published on the base chain: one
//! operation-code byte, then big-endian fixed-width fields, zero-padded to
//! the operation's chunk count.  Decoding is the exact left inverse of
//! encoding for every field the wire format carries; the nonce and the time
//! range are not published and are defaulted on decode, a documented
//! asymmetry of the format.

use vstd::prelude::*;

use crate::bytes::{push_array_20, push_array_32, push_u32_be, read_array_20, read_array_32,
    read_u32_be, u32_be, u32_from_be};
use crate::fee::{fee_bytes_of, fee_packable, lemma_packed_fee_roundtrip, pack_fee_amount,
    unpack_fee_amount, unpacked_fee, FEE_MAX_PACKABLE};
use crate::params::{MINT_NFT_OP_CODE, NFT_STORAGE_ACCOUNT_ID};
use crate::tx::{MintNFT, TimeRange};
use crate::types::{Address, ContentHash};

verus! {

/// Total pubdata length of a MintNFT operation: its chunk count times the
/// chunk size.
pub const MINT_NFT_PUBDATA_BYTES: usize = 90;

/// A field of MintNFT pubdata that could not be parsed.
#[derive(Clone, Copy, Debug, PartialEq, Eq, Structural)]
pub enum MintNFTParsingError {
    /// The record has the wrong total length.
    WrongNumberOfBytes,
    /// The creator account id could not be read.
    CreatorAccountId,
    /// The token id could not be read.
    TokenId,
    /// The fee token id could not be read.
    FeeTokenId,
    /// The account id could not be read.
    AccountId,
    /// The serial id could not be read.
    SerialId,
    /// The recipient account id could not be read.
    RecipientAccountId,
    /// The packed fee could not be read.
    Fee,
}

/// A MintNFT request validated against the ledger: the transaction plus the
/// resolved account ids.
#[derive(Clone, Copy, Debug, PartialEq, Eq)]
pub struct MintNFTOp {
    /// The underlying signed request.
    pub tx: MintNFT,
    /// Resolved id of the creator account.
    pub creator_account_id: u32,
    /// Resolved id of the recipient account.
    pub recipient_account_id: u32,
}

/// The canonical pubdata bytes of an operation.
pub open spec fn pubdata_of(op: MintNFTOp) -> Seq<u8> {
    seq![MINT_NFT_OP_CODE] + u32_be(op.creator_account_id) + u32_be(op.recipient_account_id)
        + op.tx.creator_address@ + op.tx.content_hash@ + op.tx.recipient@ + fee_bytes_of(
        op.tx.fee as int,
    ) + u32_be(op.tx.fee_token) + Seq::new(3, |i: int| 0u8)
}

impl MintNFTOp {
    /// Serializes the operation into its fixed-width pubdata record.
    pub fn get_public_data(&self) -> (r: Vec<u8>)
        requires
            self.tx.fee <= FEE_MAX_PACKABLE,
        ensures
            r@ == pubdata_of(*self),
            r@.len() == MINT_NFT_PUBDATA_BYTES,
    {
        let mut data: Vec<u8> = Vec::new();
        data.push(MINT_NFT_OP_CODE);
        push_u32_be(&mut data, self.creator_account_id);
        push_u32_be(&mut data, self.recipient_account_id);
        push_array_20(&mut data, &self.tx.creator_address.bytes);
        push_array_32(&mut data, &self.tx.content_hash.bytes);
        push_array_20(&mut data, &self.tx.recipient.bytes);
        let (fee0, fee1) = pack_fee_amount(self.tx.fee);
        data.push(fee0);
        data.push(fee1);
        push_u32_be(&mut data, self.tx.fee_token);
        data.push(0);
        data.push(0);
        data.push(0);
        proof {
            assert(data@ =~= pubdata_of(*self));
        }
        data
    }

    /// Parses a pubdata record back into an operation.
    ///
    /// Succeeds exactly on records of the right length.  The nonce and the
    /// time range are not carried by pubdata and come back defaulted.
    pub fn from_public_data(bytes: &Vec<u8>) -> (r: Result<MintNFTOp, MintNFTParsingError>)
        ensures
            r is Ok <==> bytes@.len() == MINT_NFT_PUBDATA_BYTES,
            r matches Err(e) ==> e == MintNFTParsingError::WrongNumberOfBytes,
            r matches Ok(op) ==> {
                &&& op.creator_account_id == u32_from_be(bytes@.subrange(1, 5))
                &&& op.recipient_account_id == u32_from_be(bytes@.subrange(5, 9))
                &&& op.tx.creator_id == u32_from_be(bytes@.subrange(1, 5))
                &&& op.tx.creator_address@ == bytes@.subrange(9, 29)
                &&& op.tx.content_hash@ == bytes@.subrange(29, 61)
                &&& op.tx.recipient@ == bytes@.subrange(61, 81)
                &&& op.tx.fee == unpacked_fee(bytes@[81], bytes@[82])
                &&& op.tx.fee_token == u32_from_be(bytes@.subrange(83, 87))
                &&& op.tx.nonce == 0
                &&& op.tx.time_range == TimeRange { valid_from: 0u64, valid_until: u64::MAX }
            },
    {
        if bytes.len() != MINT_NFT_PUBDATA_BYTES {
            return Err(MintNFTParsingError::WrongNumberOfBytes);
        }
        let creator_account_id = read_u32_be(bytes, 1);
        let recipient_account_id = read_u32_be(bytes, 5);
        let creator_address = Address { bytes: read_array_20(bytes, 9) };
        let content_hash = ContentHash { bytes: read_array_32(bytes, 29) };
        let recipient = Address { bytes: read_array_20(bytes, 61) };
        let fee = unpack_fee_amount(bytes[81], bytes[82]);
        let fee_token = read_u32_be(bytes, 83);
        let tx = MintNFT::new(
            creator_account_id,
            creator_address,
            content_hash,
            recipient,
            fee,
            fee_token,
            0,
            TimeRange::unbounded(),
        );
        Ok(MintNFTOp { tx, creator_account_id, recipient_account_id })
    }

    /// The accounts the operation touches: recipient, creator, and the
    /// reserved counter account.
    pub fn get_updated_account_ids(&self) -> (r: Vec<u32>)
        ensures
            r@ == seq![self.recipient_account_id, self.creator_account_id, NFT_STORAGE_ACCOUNT_ID],
    {
        let mut r: Vec<u32> = Vec::new();
        r.push(self.recipient_account_id);
        r.push(self.creator_account_id);
        r.push(NFT_STORAGE_ACCOUNT_ID);
        proof {
            assert(r@ =~= seq![
                self.recipient_account_id,
                self.creator_account_id,
                NFT_STORAGE_ACCOUNT_ID,
            ]);
        }
        r
    }
}

/// Decoding inverts encoding on every field the wire format carries: reading
/// the pubdata of `op` back recovers the account ids, the addresses, the
/// content hash, the fee token, and (for a packable fee) the fee itself.
pub proof fn lemma_pubdata_round_trip(op: MintNFTOp)
    requires
        fee_packable(op.tx.fee as int),
    ensures
        pubdata_of(op).len() == MINT_NFT_PUBDATA_BYTES,
        u32_from_be(pubdata_of(op).subrange(1, 5)) == op.creator_account_id,
        u32_from_be(pubdata_of(op).subrange(5, 9)) == op.recipient_account_id,
        pubdata_of(op).subrange(9, 29) == op.tx.creator_address@,
        pubdata_of(op).subrange(29, 61) == op.tx.content_hash@,
        pubdata_of(op).subrange(61, 81) == op.tx.recipient@,
        unpacked_fee(pubdata_of(op)[81], pubdata_of(op)[82]) == op.tx.fee,
        u32_from_be(pubdata_of(op).subrange(83, 87)) == op.tx.fee_token,
{
    let d = pubdata_of(op);
    crate::bytes::lemma_u32_be_roundtrip(op.creator_account_id);
    crate::bytes::lemma_u32_be_roundtrip(op.recipient_account_id);
    crate::bytes::lemma_u32_be_roundtrip(op.tx.fee_token);
    assert(d.subrange(1, 5) =~= u32_be(op.creator_account_id));
    assert(d.subrange(5, 9) =~= u32_be(op.recipient_account_id));
    assert(d.subrange(9, 29) =~= op.tx.creator_address@);
    assert(d.subrange(29, 61) =~= op.tx.content_hash@);
    assert(d.subrange(61, 81) =~= op.tx.recipient@);
    assert(d[81] == fee_bytes_of(op.tx.fee as int)[0]);
    assert(d[82] == fee_bytes_of(op.tx.fee as int)[1]);
    lemma_packed_fee_roundtrip(op.tx.fee as int);
    assert(d.subrange(83, 87) =~= u32_be(op.tx.fee_token));
}

impl MintNFTParsingError {
    /// A short description of the failing field.
    pub fn describe(&self) -> (r: &'static str)
        ensures
            r@.len() > 0,
    {
        let r = match self {
            MintNFTParsingError::WrongNumberOfBytes => "Wrong number of bytes",
            MintNFTParsingError::CreatorAccountId => "Cannot parse creator account id",
            MintNFTParsingError::TokenId => "Cannot parse token id",
            MintNFTParsingError::FeeTokenId => "Cannot parse fee token id",
            MintNFTParsingError::AccountId => "Cannot parse token account id",
            MintNFTParsingError::SerialId => "Cannot parse serial id",
            MintNFTParsingError::RecipientAccountId => "Cannot parse recipient account id",
            MintNFTParsingError::Fee => "Cannot parse fee",
        };
        proof {
            reveal_strlit("Wrong number of bytes");
            reveal_strlit("Cannot parse creator account id");
            reveal_strlit("Cannot parse token id");
            reveal_strlit("Cannot parse fee token id");
            reveal_strlit("Cannot parse token account id");
            reveal_strlit("Cannot parse serial id");
            reveal_strlit("Cannot parse recipient account id");
            reveal_strlit("Cannot parse fee");
        }
        r
    }
}

} // verus!
