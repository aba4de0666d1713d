//! Rendering of the human-readable messages signed by base-chain wallets,
//! and the decimal formatting they use.

use vstd::prelude::*;

use vstd::string::StringExecFns;

use crate::hexutil::{hex_encode, hex_of};
use crate::tx::MintNFT;

verus! {

/// The character of a decimal digit.
pub open spec fn dec_digit_char(d: u8) -> char
    recommends
        d < 10,
{
    (48 + d) as char
}

/// The decimal rendering of a number, most significant digit first, with no
/// leading zeros (a single zero for zero).
pub open spec fn dec_str(n: nat) -> Seq<char>
    decreases n,
{
    if n < 10 {
        seq![dec_digit_char(n as u8)]
    } else {
        dec_str(n / 10) + seq![dec_digit_char((n % 10) as u8)]
    }
}

/// `s` left-padded with zeros to at least `w` characters.
pub open spec fn zero_pad(s: Seq<char>, w: nat) -> Seq<char> {
    if s.len() >= w {
        s
    } else {
        Seq::new((w - s.len()) as nat, |i: int| '0') + s
    }
}

/// The decimal rendering of `n` base units with a point placed `decimals`
/// digits from the right, at least one digit on each side of the point.
pub open spec fn format_units_chars(n: nat, decimals: nat) -> Seq<char> {
    if decimals == 0 {
        dec_str(n) + seq!['.', '0']
    } else {
        let padded = zero_pad(dec_str(n), decimals + 1);
        padded.subrange(0, padded.len() - decimals) + seq!['.'] + padded.subrange(
            padded.len() - decimals,
            padded.len() as int,
        )
    }
}

/// The reversed digit characters of a least-significant-first digit vector.
pub open spec fn rev_chars(ds: Seq<u8>) -> Seq<char> {
    Seq::new(ds.len(), |j: int| dec_digit_char(ds[ds.len() - 1 - j]))
}

/// The one-character string of a decimal digit.
fn digit_str(d: u8) -> (r: &'static str)
    requires
        d < 10,
    ensures
        r@ == seq![dec_digit_char(d)],
{
    let r: &'static str = match d {
        0 => "0",
        1 => "1",
        2 => "2",
        3 => "3",
        4 => "4",
        5 => "5",
        6 => "6",
        7 => "7",
        8 => "8",
        _ => "9",
    };
    proof {
        reveal_strlit("0");
        reveal_strlit("1");
        reveal_strlit("2");
        reveal_strlit("3");
        reveal_strlit("4");
        reveal_strlit("5");
        reveal_strlit("6");
        reveal_strlit("7");
        reveal_strlit("8");
        reveal_strlit("9");
        assert(r@ =~= seq![dec_digit_char(d)]);
    }
    r
}

/// The decimal digits of `n`, least significant first.
fn dec_digits_vec(n: u128) -> (r: Vec<u8>)
    ensures
        r@.len() >= 1,
        forall|j: int| 0 <= j < r@.len() ==> (#[trigger] r@[j]) < 10,
        rev_chars(r@) == dec_str(n as nat),
{
    let mut digits: Vec<u8> = Vec::new();
    let mut m: u128 = n;
    while m >= 10
        invariant
            forall|j: int| 0 <= j < digits@.len() ==> (#[trigger] digits@[j]) < 10,
            dec_str(n as nat) == dec_str(m as nat) + rev_chars(digits@),
        decreases m,
    {
        let d = (m % 10) as u8;
        let ghost before = digits@;
        digits.push(d);
        m = m / 10;
        proof {
            assert(rev_chars(before.push(d)) =~= seq![dec_digit_char(d)] + rev_chars(before));
            assert(dec_str(n as nat) =~= dec_str(m as nat) + rev_chars(digits@));
        }
    }
    let ghost before = digits@;
    let last = m as u8;
    digits.push(last);
    proof {
        assert(rev_chars(before.push(last)) =~= seq![dec_digit_char(last)] + rev_chars(before));
        assert(dec_str(m as nat) == seq![dec_digit_char(last)]);
        assert(rev_chars(digits@) =~= dec_str(n as nat));
    }
    digits
}

/// Renders `n` in decimal.
pub fn u128_to_string(n: u128) -> (r: String)
    ensures
        r@ == dec_str(n as nat),
{
    let digits = dec_digits_vec(n);
    let count = digits.len();
    let mut r = String::new();
    let mut i: usize = count;
    while i > 0
        invariant
            count == digits@.len() >= 1,
            forall|j: int| 0 <= j < count ==> (#[trigger] digits@[j]) < 10,
            rev_chars(digits@) == dec_str(n as nat),
            i <= count,
            r@ == dec_str(n as nat).subrange(0, count - i),
        decreases i,
    {
        i -= 1;
        r.append(digit_str(digits[i]));
        proof {
            assert(dec_str(n as nat)[count - i - 1] == dec_digit_char(digits@[i as int]));
            assert(r@ =~= dec_str(n as nat).subrange(0, count - i));
        }
    }
    proof {
        assert(dec_str(n as nat).subrange(0, count as int) =~= dec_str(n as nat));
    }
    r
}

/// Renders `n` base units with the decimal point `decimals` digits from the
/// right, padding with zeros so that at least one digit stands on each side
/// of the point.
pub fn format_units(n: u128, decimals: u8) -> (r: String)
    ensures
        r@ == format_units_chars(n as nat, decimals as nat),
{
    if decimals == 0 {
        let mut r = u128_to_string(n);
        r.append(".0");
        proof {
            reveal_strlit(".0");
            assert(".0"@ =~= seq!['.', '0']);
            assert(r@ =~= format_units_chars(n as nat, 0));
        }
        return r;
    }
    let digits = dec_digits_vec(n);
    let count = digits.len();
    let u = decimals as usize;
    let width: usize = if count >= u + 1 {
        count
    } else {
        u + 1
    };
    let int_len = width - u;
    let ghost padded = zero_pad(dec_str(n as nat), (decimals + 1) as nat);
    let ghost target = format_units_chars(n as nat, decimals as nat);
    proof {
        assert(dec_str(n as nat).len() == count);
        assert(padded.len() == width);
        assert forall|idx: int| 0 <= idx < width implies #[trigger] padded[idx] == dec_digit_char(
            if idx < width - count {
                0u8
            } else {
                digits@[count - 1 - (idx - (width - count))]
            },
        ) by {
            if count >= u + 1 {
                assert(padded == dec_str(n as nat));
                assert(padded[idx] == rev_chars(digits@)[idx]);
            } else {
                if idx >= width - count {
                    assert(padded[idx] == dec_str(n as nat)[idx - (width - count)]);
                    assert(dec_str(n as nat)[idx - (width - count)] == rev_chars(digits@)[idx - (
                    width - count)]);
                }
            }
        }
        assert(target.len() == width + 1);
        assert forall|j: int| 0 <= j < target.len() implies #[trigger] target[j] == (if j < int_len {
            padded[j]
        } else if j == int_len {
            '.'
        } else {
            padded[j - 1]
        }) by {
            assert(target == padded.subrange(0, int_len as int) + seq!['.'] + padded.subrange(
                int_len as int,
                width as int,
            ));
        }
    }
    let mut r = String::new();
    let mut idx: usize = 0;
    while idx < width
        invariant
            count == digits@.len() >= 1,
            forall|j: int| 0 <= j < count ==> (#[trigger] digits@[j]) < 10,
            u == decimals as usize,
            u >= 1,
            width == (if count >= u + 1 {
                count as int
            } else {
                u + 1
            }),
            int_len == width - u,
            target == format_units_chars(n as nat, decimals as nat),
            target.len() == width + 1,
            forall|idx0: int|
                0 <= idx0 < width ==> #[trigger] padded[idx0] == dec_digit_char(
                    if idx0 < width - count {
                        0u8
                    } else {
                        digits@[count - 1 - (idx0 - (width - count))]
                    },
                ),
            forall|j: int|
                0 <= j < target.len() ==> #[trigger] target[j] == (if j < int_len {
                    padded[j]
                } else if j == int_len {
                    '.'
                } else {
                    padded[j - 1]
                }),
            idx <= width,
            r@ == target.subrange(
                0,
                if idx <= int_len {
                    idx as int
                } else {
                    idx + 1
                },
            ),
        decreases width - idx,
    {
        if idx == int_len {
            r.append(".");
            proof {
                reveal_strlit(".");
                assert("."@ =~= seq!['.']);
                assert(target[int_len as int] == '.');
                assert(r@ =~= target.subrange(0, idx + 1));
            }
        }
        let d: u8 = if idx < width - count {
            0
        } else {
            digits[count - 1 - (idx - (width - count))]
        };
        r.append(digit_str(d));
        proof {
            let pos: int = if idx < int_len {
                idx as int
            } else {
                idx + 1
            };
            assert(padded[idx as int] == dec_digit_char(d));
            assert(target[pos] == dec_digit_char(d));
            assert(r@ =~= target.subrange(0, pos + 1));
        }
        idx += 1;
    }
    proof {
        assert(target.subrange(0, width + 1) =~= target);
    }
    r
}

/// The abbreviated rendering of a byte value: `0x`, the first two bytes in
/// hex, an ellipsis, and the last two bytes in hex.
pub open spec fn abbrev_hex(b: Seq<u8>) -> Seq<char> {
    seq!['0', 'x'] + hex_of(b.subrange(0, 2)) + seq!['\u{2026}'] + hex_of(
        b.subrange(b.len() - 2, b.len() as int),
    )
}

/// Renders a byte value abbreviated: its first and last two bytes in hex
/// around an ellipsis.
pub fn abbrev_hex_string(bytes: &Vec<u8>) -> (r: String)
    requires
        bytes@.len() >= 4,
    ensures
        r@ == abbrev_hex(bytes@),
{
    let n = bytes.len();
    let mut head: Vec<u8> = Vec::new();
    head.push(bytes[0]);
    head.push(bytes[1]);
    let mut tail: Vec<u8> = Vec::new();
    tail.push(bytes[n - 2]);
    tail.push(bytes[n - 1]);
    let mut r = String::new();
    r.append("0x");
    let head_hex = hex_encode(&head);
    r.append(head_hex.as_str());
    r.append("\u{2026}");
    let tail_hex = hex_encode(&tail);
    r.append(tail_hex.as_str());
    proof {
        reveal_strlit("0x");
        reveal_strlit("\u{2026}");
        assert("0x"@ =~= seq!['0', 'x']);
        assert("\u{2026}"@ =~= seq!['\u{2026}']);
        assert(head@ =~= bytes@.subrange(0, 2));
        assert(tail@ =~= bytes@.subrange(bytes@.len() - 2, bytes@.len() as int));
        assert(r@ =~= abbrev_hex(bytes@));
    }
    r
}

/// The first part of the message a base-chain wallet signs for a mint: the
/// content hash and recipient abbreviated, and the fee line when a fee is
/// charged.
pub open spec fn eth_message_part(tx: MintNFT, symbol: Seq<char>, decimals: u8) -> Seq<char> {
    let head = "MintNFT "@ + abbrev_hex(tx.content_hash@) + " for: "@ + abbrev_hex(tx.recipient@);
    if tx.fee != 0 {
        head + "\n"@ + "Fee: "@ + format_units_chars(tx.fee as nat, decimals as nat) + " "@
            + symbol
    } else {
        head
    }
}

/// The full message a base-chain wallet signs: the part above and the
/// account nonce.
pub open spec fn eth_message(tx: MintNFT, symbol: Seq<char>, decimals: u8) -> Seq<char> {
    eth_message_part(tx, symbol, decimals) + "\n"@ + "Nonce: "@ + dec_str(tx.nonce as nat)
}

impl MintNFT {
    /// The first part of the two-factor signing message; the nonce is left
    /// for the end of a batch message.
    pub fn get_ethereum_sign_message_part(&self, token_symbol: &str, decimals: u8) -> (r: String)
        ensures
            r@ == eth_message_part(*self, token_symbol@, decimals),
    {
        let mut message = String::new();
        message.append("MintNFT ");
        let content_vec = hash_bytes_vec(&self.content_hash.bytes);
        let content = abbrev_hex_string(&content_vec);
        message.append(content.as_str());
        message.append(" for: ");
        let recipient_vec = addr_bytes_vec(&self.recipient.bytes);
        let recipient = abbrev_hex_string(&recipient_vec);
        message.append(recipient.as_str());
        proof {
            reveal_strlit("MintNFT ");
            reveal_strlit(" for: ");
        }
        if self.fee != 0 {
            message.append("\n");
            message.append("Fee: ");
            let fee = format_units(self.fee, decimals);
            message.append(fee.as_str());
            message.append(" ");
            message.append(token_symbol);
            proof {
                reveal_strlit("\n");
                reveal_strlit("Fee: ");
                reveal_strlit(" ");
                assert(message@ =~= eth_message_part(*self, token_symbol@, decimals));
            }
        } else {
            proof {
                assert(message@ =~= eth_message_part(*self, token_symbol@, decimals));
            }
        }
        message
    }

    /// The full two-factor signing message, closing with the account nonce.
    pub fn get_ethereum_sign_message(&self, token_symbol: &str, decimals: u8) -> (r: String)
        ensures
            r@ == eth_message(*self, token_symbol@, decimals),
    {
        let mut message = self.get_ethereum_sign_message_part(token_symbol, decimals);
        if !message.as_str().is_empty() {
            message.append("\n");
        }
        message.append("Nonce: ");
        let nonce = u128_to_string(self.nonce as u128);
        message.append(nonce.as_str());
        proof {
            reveal_strlit("\n");
            reveal_strlit("Nonce: ");
            reveal_strlit("MintNFT ");
            assert(eth_message_part(*self, token_symbol@, decimals).len() > 0);
            assert(message@ =~= eth_message(*self, token_symbol@, decimals));
        }
        message
    }
}

/// The bytes of a 32-byte hash as a vector.
fn hash_bytes_vec(bytes: &[u8; 32]) -> (r: Vec<u8>)
    ensures
        r@ == bytes@,
{
    let mut r: Vec<u8> = Vec::new();
    crate::bytes::push_array_32(&mut r, bytes);
    proof {
        assert(r@ =~= bytes@);
    }
    r
}

/// The bytes of a 20-byte address as a vector.
fn addr_bytes_vec(bytes: &[u8; 20]) -> (r: Vec<u8>)
    ensures
        r@ == bytes@,
{
    let mut r: Vec<u8> = Vec::new();
    crate::bytes::push_array_20(&mut r, bytes);
    proof {
        assert(r@ =~= bytes@);
    }
    r
}

} // verus!
