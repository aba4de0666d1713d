//! The packed exponent-and-mantissa fee format.
//!
//! A fee travels on the wire as two bytes: a 5-bit decimal exponent followed
//! by an 11-bit mantissa, denoting `mantissa * 10^exponent`.  Packing rounds
//! down; a fee is *packable* when packing loses nothing.

use vstd::prelude::*;

use vstd::arithmetic::div_mod::{
    lemma_div_denominator, lemma_div_is_ordered, lemma_div_multiples_vanish,
    lemma_multiply_divide_le,
};
use vstd::arithmetic::mul::{lemma_mul_inequality, lemma_mul_is_commutative};

use crate::params::{FEE_MAX_EXPONENT, FEE_MAX_MANTISSA};

verus! {

/// Largest value the packed format can denote: `FEE_MAX_MANTISSA * 10^FEE_MAX_EXPONENT`.
pub const FEE_MAX_PACKABLE: u128 = 20_470_000_000_000_000_000_000_000_000_000_000;

/// `10^e`.
pub open spec fn pow10(e: nat) -> int
    decreases e,
{
    if e == 0 {
        1
    } else {
        10 * pow10((e - 1) as nat)
    }
}

/// The exponent that packing picks: the smallest `e` with
/// `f / 10^e <= FEE_MAX_MANTISSA`.
pub open spec fn greedy_exp(f: int) -> nat
    decreases f,
{
    if f <= FEE_MAX_MANTISSA {
        0
    } else {
        1 + greedy_exp(f / 10)
    }
}

/// The mantissa that packing picks.
pub open spec fn greedy_mantissa(f: int) -> int {
    f / pow10(greedy_exp(f))
}

/// The value a mantissa and an exponent denote.
pub open spec fn packed_denotes(m: int, e: nat) -> int {
    m * pow10(e)
}

/// Whether `f` is denoted exactly by some mantissa and exponent in range.
pub open spec fn fee_packable(f: int) -> bool {
    exists|m: int, e: nat|
        0 <= m <= FEE_MAX_MANTISSA && e <= FEE_MAX_EXPONENT && f == #[trigger] packed_denotes(m, e)
}

/// First packed byte: five exponent bits, then the mantissa's top three bits.
pub open spec fn fee_byte0(m: u16, e: u8) -> u8 {
    (e << 3) | ((m >> 8) as u8)
}

/// Second packed byte: the mantissa's low eight bits.
pub open spec fn fee_byte1(m: u16) -> u8 {
    m as u8
}

/// The exponent read from a packed fee.
pub open spec fn fee_exponent_of(b0: u8) -> nat {
    (b0 >> 3) as nat
}

/// The mantissa read from a packed fee.
pub open spec fn fee_mantissa_of(b0: u8, b1: u8) -> int {
    ((((b0 & 7) as u16) << 8) | (b1 as u16)) as int
}

/// The value a packed fee denotes.
pub open spec fn unpacked_fee(b0: u8, b1: u8) -> int {
    fee_mantissa_of(b0, b1) * pow10(fee_exponent_of(b0))
}

/// The two bytes that packing `f` produces.
pub open spec fn fee_bytes_of(f: int) -> Seq<u8> {
    seq![
        fee_byte0(greedy_mantissa(f) as u16, greedy_exp(f) as u8),
        fee_byte1(greedy_mantissa(f) as u16),
    ]
}

pub proof fn lemma_pow10_pos(e: nat)
    ensures
        pow10(e) >= 1,
    decreases e,
{
    if e > 0 {
        lemma_pow10_pos((e - 1) as nat);
    }
}

pub proof fn lemma_pow10_monotone(a: nat, b: nat)
    requires
        a <= b,
    ensures
        pow10(a) <= pow10(b),
    decreases b,
{
    if a < b {
        lemma_pow10_monotone(a, (b - 1) as nat);
        lemma_pow10_pos((b - 1) as nat);
    }
}

pub proof fn lemma_pow10_adds(a: nat, b: nat)
    ensures
        pow10(a + b) == pow10(a) * pow10(b),
    decreases a,
{
    if a == 0 {
    } else {
        lemma_pow10_adds((a - 1) as nat, b);
        assert(pow10((a - 1) as nat + b) == pow10((a - 1) as nat) * pow10(b));
        assert(pow10(a + b) == 10 * (pow10((a - 1) as nat) * pow10(b)));
        assert(10 * (pow10((a - 1) as nat) * pow10(b)) == (10 * pow10((a - 1) as nat)) * pow10(b))
            by (nonlinear_arith);
    }
}

/// The concrete value of the largest exponent's power.
pub proof fn lemma_pow10_31()
    ensures
        pow10(31) == 10_000_000_000_000_000_000_000_000_000_000int,
{
    reveal_with_fuel(pow10, 33);
}

/// The greedy mantissa is within the packed format's range.
pub proof fn lemma_greedy_mantissa_range(f: int)
    requires
        0 <= f,
    ensures
        0 <= greedy_mantissa(f) <= FEE_MAX_MANTISSA,
    decreases f,
{
    let e = greedy_exp(f);
    if f <= FEE_MAX_MANTISSA {
        assert(pow10(e) == 1);
        assert(f / 1 == f);
    } else {
        lemma_greedy_mantissa_range(f / 10);
        let e1 = greedy_exp(f / 10);
        lemma_pow10_pos(e1);
        lemma_div_denominator(f, 10, pow10(e1));
        assert(f / 10 / pow10(e1) == f / (10 * pow10(e1)));
        assert(pow10(e) == 10 * pow10(e1));
    }
}

/// Greedy minimality: any exponent that brings the quotient into range is
/// at least the greedy one.
pub proof fn lemma_greedy_le(f: int, e: nat)
    requires
        0 <= f,
        f / pow10(e) <= FEE_MAX_MANTISSA,
    ensures
        greedy_exp(f) <= e,
    decreases e,
{
    if f <= FEE_MAX_MANTISSA {
    } else {
        if e == 0 {
            assert(pow10(0) == 1);
            assert(f / 1 == f);
        } else {
            lemma_pow10_pos((e - 1) as nat);
            lemma_div_denominator(f, 10, pow10((e - 1) as nat));
            assert(f / 10 / pow10((e - 1) as nat) == f / (10 * pow10((e - 1) as nat)));
            assert(pow10(e) == 10 * pow10((e - 1) as nat));
            lemma_greedy_le(f / 10, (e - 1) as nat);
        }
    }
}

/// Under the format's maximum, the greedy exponent stays in range.
pub proof fn lemma_greedy_exp_bound(f: int)
    requires
        0 <= f <= FEE_MAX_PACKABLE,
    ensures
        greedy_exp(f) <= FEE_MAX_EXPONENT,
{
    lemma_pow10_31();
    lemma_pow10_pos(31);
    lemma_multiply_divide_le(f, pow10(31), FEE_MAX_MANTISSA as int);
    lemma_greedy_le(f, 31);
}

/// A packable fee is reproduced exactly by the greedy choice.
pub proof fn lemma_packable_greedy_exact(f: int)
    requires
        0 <= f,
        fee_packable(f),
    ensures
        greedy_mantissa(f) * pow10(greedy_exp(f)) == f,
{
    let (m, e): (int, nat) = choose|m: int, e: nat|
        0 <= m <= FEE_MAX_MANTISSA && e <= FEE_MAX_EXPONENT && f == #[trigger] packed_denotes(m, e);
    assert(f == m * pow10(e));
    let g = greedy_exp(f);
    lemma_pow10_pos(e);
    lemma_div_multiples_vanish(m, pow10(e));
    assert(pow10(e) * m == m * pow10(e)) by (nonlinear_arith);
    assert(f / pow10(e) == m);
    lemma_greedy_le(f, e);
    let d = (e - g) as nat;
    lemma_pow10_adds(g, d);
    assert(pow10(e) == pow10(g) * pow10(d));
    lemma_pow10_pos(g);
    lemma_pow10_pos(d);
    assert(f == (m * pow10(d)) * pow10(g)) by (nonlinear_arith)
        requires
            f == m * pow10(e),
            pow10(e) == pow10(g) * pow10(d),
    ;
    lemma_div_multiples_vanish(m * pow10(d), pow10(g));
    assert(pow10(g) * (m * pow10(d)) == (m * pow10(d)) * pow10(g)) by (nonlinear_arith);
    assert(f / pow10(g) == m * pow10(d));
    assert(greedy_mantissa(f) == m * pow10(d));
}

/// Nothing above the format's maximum is packable.
pub proof fn lemma_not_packable_above_max(f: int)
    requires
        f > FEE_MAX_PACKABLE,
    ensures
        !fee_packable(f),
{
    assert forall|m: int, e: nat|
        0 <= m <= FEE_MAX_MANTISSA && e <= FEE_MAX_EXPONENT implies #[trigger] packed_denotes(m, e)
        <= FEE_MAX_PACKABLE by {
        lemma_pow10_monotone(e, 31);
        lemma_pow10_pos(e);
        lemma_pow10_31();
        lemma_mul_inequality(m, FEE_MAX_MANTISSA as int, pow10(e));
        lemma_mul_inequality(pow10(e), pow10(31), FEE_MAX_MANTISSA as int);
        lemma_mul_is_commutative(FEE_MAX_MANTISSA as int, pow10(e));
    }
}

/// `10^e` as a machine integer.
pub fn pow10_u128(e: u32) -> (r: u128)
    requires
        e <= FEE_MAX_EXPONENT,
    ensures
        r as int == pow10(e as nat),
{
    let mut r: u128 = 1;
    let mut i: u32 = 0;
    while i < e
        invariant
            i <= e <= FEE_MAX_EXPONENT,
            r as int == pow10(i as nat),
        decreases e - i,
    {
        proof {
            lemma_pow10_monotone((i + 1) as nat, 31);
            lemma_pow10_31();
        }
        r = r * 10;
        i += 1;
    }
    r
}

/// Packs `fee`, rounding down to the nearest representable value.
pub fn pack_fee_amount(fee: u128) -> (r: (u8, u8))
    requires
        fee <= FEE_MAX_PACKABLE,
    ensures
        seq![r.0, r.1] == fee_bytes_of(fee as int),
{
    let mut m: u128 = fee;
    let mut e: u32 = 0;
    proof {
        assert(pow10(0) == 1);
        assert(fee as int / 1 == fee as int);
    }
    while m > 2047
        invariant
            fee <= FEE_MAX_PACKABLE,
            e <= FEE_MAX_EXPONENT,
            m as int == fee as int / pow10(e as nat),
            greedy_exp(fee as int) == e as nat + greedy_exp(m as int),
        decreases m,
    {
        proof {
            if e == FEE_MAX_EXPONENT {
                lemma_pow10_31();
                lemma_pow10_pos(31);
                lemma_multiply_divide_le(fee as int, pow10(31), FEE_MAX_MANTISSA as int);
                assert(false);
            }
            lemma_pow10_pos(e as nat);
            lemma_div_denominator(fee as int, pow10(e as nat), 10);
            assert(pow10((e + 1) as nat) == 10 * pow10(e as nat));
            assert(pow10(e as nat) * 10 == 10 * pow10(e as nat));
        }
        m = m / 10;
        e += 1;
    }
    proof {
        assert(greedy_exp(m as int) == 0);
        assert(greedy_exp(fee as int) == e as nat);
        assert(greedy_mantissa(fee as int) == m as int);
    }
    let m16: u16 = m as u16;
    let e8: u8 = e as u8;
    let b0: u8 = (e8 << 3) | ((m16 >> 8) as u8);
    let b1: u8 = m16 as u8;
    proof {
        assert(seq![b0, b1] =~= fee_bytes_of(fee as int));
    }
    (b0, b1)
}

/// The value denoted by a packed fee.
pub fn unpack_fee_amount(b0: u8, b1: u8) -> (r: u128)
    ensures
        r as int == unpacked_fee(b0, b1),
{
    let e: u8 = b0 >> 3;
    let m: u16 = (((b0 & 7) as u16) << 8) | (b1 as u16);
    proof {
        assert(b0 >> 3 <= 31u8) by (bit_vector);
        assert((((b0 & 7) as u16) << 8) | (b1 as u16) <= 2047u16) by (bit_vector);
    }
    let p = pow10_u128(e as u32);
    proof {
        lemma_pow10_pos(e as nat);
        lemma_pow10_monotone(e as nat, 31);
        lemma_pow10_31();
        lemma_mul_inequality(m as int, FEE_MAX_MANTISSA as int, p as int);
        lemma_mul_inequality(p as int, pow10(31), FEE_MAX_MANTISSA as int);
        lemma_mul_is_commutative(FEE_MAX_MANTISSA as int, p as int);
    }
    (m as u128) * p
}

/// Whether packing `fee` loses nothing.
pub fn is_fee_amount_packable(fee: u128) -> (r: bool)
    ensures
        r == fee_packable(fee as int),
{
    if fee > FEE_MAX_PACKABLE {
        proof {
            lemma_not_packable_above_max(fee as int);
        }
        return false;
    }
    let (b0, b1) = pack_fee_amount(fee);
    let back = unpack_fee_amount(b0, b1);
    proof {
        lemma_greedy_mantissa_range(fee as int);
        lemma_greedy_exp_bound(fee as int);
        lemma_packed_bits_roundtrip(fee as int);
        if back == fee {
            let m = greedy_mantissa(fee as int);
            let e = greedy_exp(fee as int);
            assert(0 <= m <= FEE_MAX_MANTISSA && e <= FEE_MAX_EXPONENT && fee as int
                == packed_denotes(m, e));
        }
        if fee_packable(fee as int) {
            lemma_packable_greedy_exact(fee as int);
        }
    }
    back == fee
}

/// Reading a packed fee's bytes back yields the greedy mantissa and exponent.
pub proof fn lemma_packed_bits_roundtrip(f: int)
    requires
        0 <= greedy_mantissa(f) <= FEE_MAX_MANTISSA,
        greedy_exp(f) <= FEE_MAX_EXPONENT,
    ensures
        fee_exponent_of(fee_bytes_of(f)[0]) == greedy_exp(f),
        fee_mantissa_of(fee_bytes_of(f)[0], fee_bytes_of(f)[1]) == greedy_mantissa(f),
        unpacked_fee(fee_bytes_of(f)[0], fee_bytes_of(f)[1]) == greedy_mantissa(f) * pow10(
            greedy_exp(f),
        ),
{
    let m16 = greedy_mantissa(f) as u16;
    let e8 = greedy_exp(f) as u8;
    assert(m16 <= 2047 && e8 <= 31);
    assert((((e8 << 3) | ((m16 >> 8) as u8)) >> 3) == e8 && ((((((e8 << 3) | ((m16
        >> 8) as u8)) & 7) as u16) << 8) | ((m16 as u8) as u16)) == m16) by (bit_vector)
        requires
            m16 <= 2047u16 && e8 <= 31u8,
    ;
}

/// A packable fee survives the pack/unpack round trip exactly.
pub proof fn lemma_packed_fee_roundtrip(f: int)
    requires
        0 <= f,
        fee_packable(f),
    ensures
        unpacked_fee(fee_bytes_of(f)[0], fee_bytes_of(f)[1]) == f,
{
    lemma_not_packable_above_max_converse(f);
    lemma_greedy_mantissa_range(f);
    lemma_greedy_exp_bound(f);
    lemma_packed_bits_roundtrip(f);
    lemma_packable_greedy_exact(f);
}

/// A packable fee is at most the format's maximum.
pub proof fn lemma_not_packable_above_max_converse(f: int)
    requires
        fee_packable(f),
    ensures
        f <= FEE_MAX_PACKABLE,
{
    if f > FEE_MAX_PACKABLE {
        lemma_not_packable_above_max(f);
    }
}

} // verus!
