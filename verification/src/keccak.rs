//! The keccak-256 digest used to derive NFT pseudo-addresses.

use parity_crypto::Keccak256;

use vstd::prelude::*;

verus! {

/// The keccak-256 digest of a byte string.  The algorithm is fixed by the
/// protocol; only its outcome is named here.
pub uninterp spec fn keccak_of(data: Seq<u8>) -> Seq<u8>;

/// Relies on `parity_crypto::Keccak256::keccak256`: the digest depends on
/// the input bytes alone and is always 32 bytes long.
#[verifier::external_body]
pub fn keccak256_digest(data: &Vec<u8>) -> (r: Vec<u8>)
    ensures
        r@ == keccak_of(data@),
        r@.len() == 32,
{
    let digest: [u8; 32] = data.keccak256();
    digest.to_vec()
}

} // verus!
