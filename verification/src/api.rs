//! Pure helpers of the API surface: hash parsing, signature rendering, and
//! the receipt-status rule.

use vstd::prelude::*;

use vstd::string::{StrSliceExecFns, StringExecFns, StringSliceAdditionalSpecFns};

use crate::hexutil::{bytes_of_hex, hex_encode, hex_of, hex_decode, valid_hex, HexError};

verus! {

/// The version tag of the served API.
#[derive(Clone, Copy, Debug, PartialEq, Eq, Structural)]
pub enum ApiVersion {
    /// Version 0.2.
    V02,
}

/// The lifecycle status a receipt reports for a rollup transaction.
#[derive(Clone, Copy, Debug, PartialEq, Eq, Structural)]
pub enum L2Status {
    /// Accepted into the mempool, not yet in a block.
    Queued,
    /// In a committed block whose proof is still outstanding.
    Committed,
    /// In a committed block that the base chain finalized.
    Finalized,
    /// Failed execution.
    Rejected,
}

/// The status an executed transaction's receipt carries, decided from
/// whether it succeeded and whether its block is finalized.
pub fn executed_tx_status(success: bool, finalized: bool) -> (r: L2Status)
    ensures
        r == (if !success {
            L2Status::Rejected
        } else if finalized {
            L2Status::Finalized
        } else {
            L2Status::Committed
        }),
{
    if !success {
        L2Status::Rejected
    } else if finalized {
        L2Status::Finalized
    } else {
        L2Status::Committed
    }
}

/// `text` without a leading `0x` or `sync-tx:` marker, as bytes.
pub open spec fn strip_hash_prefix(b: Seq<u8>) -> Seq<u8> {
    if b.len() >= 2 && b[0] == 48 && b[1] == 120 {
        b.subrange(2, b.len() as int)
    } else if b.len() >= 8 && b[0] == 115 && b[1] == 121 && b[2] == 110 && b[3] == 99 && b[4] == 45
        && b[5] == 116 && b[6] == 120 && b[7] == 58 {
        b.subrange(8, b.len() as int)
    } else {
        b
    }
}

/// Parses a transaction hash given as hex text, accepting an optional `0x`
/// or `sync-tx:` prefix.
pub fn decode_hash(tx_hash: &str) -> (r: Result<Vec<u8>, HexError>)
    ensures
        r is Ok <==> valid_hex(strip_hash_prefix(tx_hash.spec_bytes())),
        r matches Ok(v) ==> v@ == bytes_of_hex(strip_hash_prefix(tx_hash.spec_bytes())),
        r matches Err(e) ==> {
            let stripped = strip_hash_prefix(tx_hash.spec_bytes());
            match e {
                HexError::OddLength => stripped.len() % 2 != 0,
                HexError::InvalidCharacter { character, index } => {
                    &&& stripped.len() % 2 == 0
                    &&& index < stripped.len()
                    &&& !crate::hexutil::is_hex_digit_byte(stripped[index as int])
                    &&& character == stripped[index as int] as char
                },
                HexError::InvalidLength => false,
            }
        },
{
    let bytes = tx_hash.as_bytes_vec();
    let n = bytes.len();
    let start: usize = if n >= 2 && bytes[0] == 48 && bytes[1] == 120 {
        2
    } else if n >= 8 && bytes[0] == 115 && bytes[1] == 121 && bytes[2] == 110 && bytes[3] == 99
        && bytes[4] == 45 && bytes[5] == 116 && bytes[6] == 120 && bytes[7] == 58 {
        8
    } else {
        0
    };
    let mut rest: Vec<u8> = Vec::new();
    let mut i: usize = start;
    while i < n
        invariant
            start <= i <= n,
            n == bytes@.len(),
            rest@ == bytes@.subrange(start as int, i as int),
        decreases n - i,
    {
        rest.push(bytes[i]);
        proof {
            assert(rest@ =~= bytes@.subrange(start as int, i + 1));
        }
        i += 1;
    }
    proof {
        assert(rest@ =~= strip_hash_prefix(bytes@));
    }
    hex_decode(&rest)
}

/// Renders signature bytes as `0x`-prefixed lowercase hex.
pub fn get_sign_bytes(signature: &Vec<u8>) -> (r: String)
    ensures
        r@ == seq!['0', 'x'] + hex_of(signature@),
{
    let mut result = String::new();
    result.append("0x");
    let body = hex_encode(signature);
    result.append(body.as_str());
    proof {
        reveal_strlit("0x");
        assert("0x"@ =~= seq!['0', 'x']);
        assert(result@ =~= seq!['0', 'x'] + hex_of(signature@));
    }
    result
}

} // verus!
