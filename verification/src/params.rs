//! Protocol constants shared with the base-chain verifier.
//!
//! Field widths and special identifiers are consensus parameters: changing
//! any of them requires a network-wide version bump.

use vstd::prelude::*;

verus! {

/// Size in bytes of one data-availability chunk.
pub const CHUNK_BYTES: usize = 15;

/// Number of chunks occupied by a MintNFT operation's pubdata.
pub const MINT_NFT_CHUNKS: usize = 6;

/// Operation code of MintNFT in pubdata.
pub const MINT_NFT_OP_CODE: u8 = 0x09;

/// Transaction type tag of MintNFT in the signed-transaction encoding.
pub const MINT_NFT_TX_TYPE: u8 = 9;

/// Width in bytes of an account identifier on the wire.
pub const ACCOUNT_ID_BYTES: usize = 4;

/// Width in bytes of a token identifier on the wire.
pub const TOKEN_BYTES: usize = 4;

/// Width in bytes of a chain address.
pub const ADDRESS_BYTES: usize = 20;

/// Width in bytes of an NFT content hash.
pub const CONTENT_HASH_BYTES: usize = 32;

/// Width in bytes of a packed fee amount (5 exponent bits + 11 mantissa bits).
pub const FEE_BYTES: usize = 2;

/// Largest mantissa representable in the packed fee format (11 bits).
pub const FEE_MAX_MANTISSA: u128 = 2047;

/// Largest exponent representable in the packed fee format (5 bits).
pub const FEE_MAX_EXPONENT: u32 = 31;

/// Largest fungible token id; ids above it are reserved for NFTs.
pub const MAX_FUNGIBLE_TOKEN_ID: u32 = 65535;

/// First token id that an NFT mint may produce.
pub const MIN_NFT_TOKEN_ID: u32 = 65536;

/// Reserved token id whose balance slot doubles as the global NFT counter
/// on the storage account, and as the per-creator serial counter on a
/// creator account.
pub const NFT_TOKEN_ID: u32 = 0x7fffffff;

/// Largest assignable user account id.
pub const MAX_ACCOUNT_ID: u32 = 16777214;

/// Reserved id of the system account that holds the global NFT counter.
pub const NFT_STORAGE_ACCOUNT_ID: u32 = 16777215;

/// Byte repeated through the reserved storage account's address.
pub const NFT_STORAGE_ACCOUNT_ADDRESS_BYTE: u8 = 0xfe;

} // verus!
