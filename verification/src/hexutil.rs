//! Hexadecimal encoding of transaction hashes, and decoding of hashes
//! arriving as text.

use vstd::prelude::*;

verus! {

/// The lowercase hex digit for a nibble.
pub open spec fn hex_digit_char(n: u8) -> char
    recommends
        n < 16,
{
    if n < 10 {
        (48 + n) as char
    } else {
        (87 + n) as char
    }
}

/// The lowercase hex string of a byte string: two digits per byte, high
/// nibble first.
pub open spec fn hex_of(bytes: Seq<u8>) -> Seq<char> {
    Seq::new(
        bytes.len() * 2,
        |i: int|
            if i % 2 == 0 {
                hex_digit_char(bytes[i / 2] >> 4)
            } else {
                hex_digit_char(bytes[i / 2] & 15)
            },
    )
}

/// Whether an ASCII byte is a hex digit (either case).
pub open spec fn is_hex_digit_byte(b: u8) -> bool {
    (48 <= b <= 57) || (97 <= b <= 102) || (65 <= b <= 70)
}

/// The value of a hex-digit byte.
pub open spec fn hex_val(b: u8) -> u8
    recommends
        is_hex_digit_byte(b),
{
    if 48 <= b <= 57 {
        (b - 48) as u8
    } else if 65 <= b <= 70 {
        (b - 55) as u8
    } else {
        (b - 87) as u8
    }
}

/// Whether a byte string is even-length hex text.
pub open spec fn valid_hex(s: Seq<u8>) -> bool {
    s.len() % 2 == 0 && forall|i: int| 0 <= i < s.len() ==> is_hex_digit_byte(#[trigger] s[i])
}

/// The bytes that hex text denotes.
pub open spec fn bytes_of_hex(s: Seq<u8>) -> Seq<u8>
    recommends
        valid_hex(s),
{
    Seq::new(s.len() / 2, |i: int| (hex_val(s[2 * i]) << 4) | hex_val(s[2 * i + 1]))
}

/// The ASCII bytes of a character string.
pub open spec fn ascii_bytes(s: Seq<char>) -> Seq<u8> {
    Seq::new(s.len(), |i: int| s[i] as u8)
}

/// Encoding then decoding returns the bytes: the hex text of any byte string
/// is valid hex and denotes exactly that byte string.
pub proof fn lemma_hex_round_trip(b: Seq<u8>)
    ensures
        valid_hex(ascii_bytes(hex_of(b))),
        bytes_of_hex(ascii_bytes(hex_of(b))) == b,
{
    let text = ascii_bytes(hex_of(b));
    assert forall|i: int| 0 <= i < text.len() implies is_hex_digit_byte(#[trigger] text[i]) by {
        let byte = b[i / 2];
        let nib = if i % 2 == 0 {
            byte >> 4
        } else {
            byte & 15
        };
        assert((byte >> 4) < 16 && (byte & 15) < 16) by (bit_vector);
        lemma_hex_digit_char_ascii(nib);
    }
    assert forall|i: int| 0 <= i < b.len() implies #[trigger] bytes_of_hex(text)[i] == b[i] by {
        let byte = b[i];
        let hi = byte >> 4;
        let lo = byte & 15;
        assert((byte >> 4) < 16 && (byte & 15) < 16) by (bit_vector);
        lemma_hex_digit_char_ascii(hi);
        lemma_hex_digit_char_ascii(lo);
        assert(text[2 * i] == hex_digit_char(hi) as u8);
        assert(text[2 * i + 1] == hex_digit_char(lo) as u8);
        assert(hex_val(text[2 * i]) == hi && hex_val(text[2 * i + 1]) == lo);
        assert(((byte >> 4) << 4) | (byte & 15) == byte) by (bit_vector);
    }
    assert(bytes_of_hex(text) =~= b);
}

/// A nibble's hex digit is an ASCII hex-digit byte that reads back as the
/// nibble.
proof fn lemma_hex_digit_char_ascii(n: u8)
    requires
        n < 16,
    ensures
        is_hex_digit_byte(hex_digit_char(n) as u8),
        hex_val(hex_digit_char(n) as u8) == n,
{
    if n < 10 {
        assert(hex_digit_char(n) as u8 == 48 + n);
    } else {
        assert(hex_digit_char(n) as u8 == 87 + n);
    }
}

/// A rejected hex string.
#[derive(Clone, Copy, Debug, PartialEq, Eq, Structural)]
pub enum HexError {
    /// The text has an odd number of digits.
    OddLength,
    /// A character is not a hex digit.
    InvalidCharacter { character: char, index: usize },
    /// The decoded length does not fit the expected width.
    InvalidLength,
}

/// Relies on `hex::encode`: every byte becomes two lowercase hex digits,
/// high nibble first.
#[verifier::external_body]
pub fn hex_encode(data: &Vec<u8>) -> (r: String)
    ensures
        r@ == hex_of(data@),
{
    hex::encode(data.as_slice())
}

/// Relies on `hex::decode`: even-length hex text (either case) decodes to
/// its bytes; otherwise an odd length, or the first non-digit position, is
/// reported.  `hex::decode` into a growable buffer never reports a length
/// mismatch.
#[verifier::external_body]
pub fn hex_decode(data: &Vec<u8>) -> (r: Result<Vec<u8>, HexError>)
    ensures
        r is Ok <==> valid_hex(data@),
        r matches Ok(v) ==> v@ == bytes_of_hex(data@),
        r matches Err(e) ==> match e {
            HexError::OddLength => data@.len() % 2 != 0,
            HexError::InvalidCharacter { character, index } => {
                &&& data@.len() % 2 == 0
                &&& index < data@.len()
                &&& !is_hex_digit_byte(data@[index as int])
                &&& character == data@[index as int] as char
                &&& forall|j: int| 0 <= j < index ==> is_hex_digit_byte(#[trigger] data@[j])
            },
            HexError::InvalidLength => false,
        },
{
    match hex::decode(data.as_slice()) {
        Ok(v) => Ok(v),
        Err(hex::FromHexError::OddLength) => Err(HexError::OddLength),
        Err(hex::FromHexError::InvalidHexCharacter { c, index }) => Err(
            HexError::InvalidCharacter { character: c, index },
        ),
        Err(hex::FromHexError::InvalidStringLength) => Err(HexError::InvalidLength),
    }
}

} // verus!
