//! Big-endian fixed-width integer encoding, the base of the pubdata layout.

use vstd::prelude::*;

verus! {

/// The four big-endian bytes of a 32-bit integer.
pub open spec fn u32_be(x: u32) -> Seq<u8> {
    seq![(x >> 24) as u8, (x >> 16) as u8, (x >> 8) as u8, x as u8]
}

/// The 32-bit integer read from four big-endian bytes.
pub open spec fn u32_from_be(s: Seq<u8>) -> u32
    recommends
        s.len() == 4,
{
    ((s[0] as u32) << 24) | ((s[1] as u32) << 16) | ((s[2] as u32) << 8) | (s[3] as u32)
}

/// The eight big-endian bytes of a 64-bit integer.
pub open spec fn u64_be(x: u64) -> Seq<u8> {
    seq![
        (x >> 56) as u8,
        (x >> 48) as u8,
        (x >> 40) as u8,
        (x >> 32) as u8,
        (x >> 24) as u8,
        (x >> 16) as u8,
        (x >> 8) as u8,
        x as u8,
    ]
}

/// Reading back the four bytes of `u32_be` yields the encoded integer.
pub proof fn lemma_u32_be_roundtrip(x: u32)
    ensures
        u32_from_be(u32_be(x)) == x,
{
    assert((((x >> 24) as u8 as u32) << 24) | (((x >> 16) as u8 as u32) << 16) | (((x
        >> 8) as u8 as u32) << 8) | (x as u8 as u32) == x) by (bit_vector);
}

/// Appends the four big-endian bytes of `x`.
pub fn push_u32_be(out: &mut Vec<u8>, x: u32)
    ensures
        final(out)@ == old(out)@ + u32_be(x),
{
    out.push((x >> 24) as u8);
    out.push((x >> 16) as u8);
    out.push((x >> 8) as u8);
    out.push(x as u8);
    proof {
        assert(final(out)@ =~= old(out)@ + u32_be(x));
    }
}

/// Appends the eight big-endian bytes of `x`.
pub fn push_u64_be(out: &mut Vec<u8>, x: u64)
    ensures
        final(out)@ == old(out)@ + u64_be(x),
{
    out.push((x >> 56) as u8);
    out.push((x >> 48) as u8);
    out.push((x >> 40) as u8);
    out.push((x >> 32) as u8);
    out.push((x >> 24) as u8);
    out.push((x >> 16) as u8);
    out.push((x >> 8) as u8);
    out.push(x as u8);
    proof {
        assert(final(out)@ =~= old(out)@ + u64_be(x));
    }
}

/// Appends all 20 bytes of a fixed-size array.
pub fn push_array_20(out: &mut Vec<u8>, bytes: &[u8; 20])
    ensures
        final(out)@ == old(out)@ + bytes@,
{
    let mut i: usize = 0;
    while i < 20
        invariant
            i <= 20,
            out@ == old(out)@ + bytes@.subrange(0, i as int),
        decreases 20 - i,
    {
        out.push(bytes[i]);
        proof {
            assert(out@ =~= old(out)@ + bytes@.subrange(0, i + 1));
        }
        i += 1;
    }
    proof {
        assert(bytes@.subrange(0, 20) =~= bytes@);
    }
}

/// Appends all 32 bytes of a fixed-size array.
pub fn push_array_32(out: &mut Vec<u8>, bytes: &[u8; 32])
    ensures
        final(out)@ == old(out)@ + bytes@,
{
    let mut i: usize = 0;
    while i < 32
        invariant
            i <= 32,
            out@ == old(out)@ + bytes@.subrange(0, i as int),
        decreases 32 - i,
    {
        out.push(bytes[i]);
        proof {
            assert(out@ =~= old(out)@ + bytes@.subrange(0, i + 1));
        }
        i += 1;
    }
    proof {
        assert(bytes@.subrange(0, 32) =~= bytes@);
    }
}

/// Reads a 32-bit big-endian integer at `offset`.
pub fn read_u32_be(bytes: &Vec<u8>, offset: usize) -> (r: u32)
    requires
        offset + 4 <= bytes@.len(),
    ensures
        r == u32_from_be(bytes@.subrange(offset as int, offset + 4)),
{
    let n = bytes.len();
    let r = ((bytes[offset] as u32) << 24) | ((bytes[offset + 1] as u32) << 16) | ((bytes[offset
        + 2] as u32) << 8) | (bytes[offset + 3] as u32);
    proof {
        let s = bytes@.subrange(offset as int, offset + 4);
        assert(s[0] == bytes@[offset as int] && s[1] == bytes@[offset + 1] && s[2] == bytes@[offset
            + 2] && s[3] == bytes@[offset + 3]);
    }
    r
}

/// Copies `bytes[offset .. offset + 20]` into a fixed-size array.
pub fn read_array_20(bytes: &Vec<u8>, offset: usize) -> (r: [u8; 20])
    requires
        offset + 20 <= bytes@.len(),
    ensures
        r@ == bytes@.subrange(offset as int, offset + 20),
{
    let n = bytes.len();
    let mut r = [0u8; 20];
    let mut i: usize = 0;
    while i < 20
        invariant
            i <= 20,
            offset + 20 <= n == bytes@.len(),
            r@.len() == 20,
            forall|j: int| 0 <= j < i ==> r@[j] == bytes@[offset + j],
        decreases 20 - i,
    {
        r[i] = bytes[offset + i];
        i += 1;
    }
    proof {
        assert(r@ =~= bytes@.subrange(offset as int, offset + 20));
    }
    r
}

/// Copies `bytes[offset .. offset + 32]` into a fixed-size array.
pub fn read_array_32(bytes: &Vec<u8>, offset: usize) -> (r: [u8; 32])
    requires
        offset + 32 <= bytes@.len(),
    ensures
        r@ == bytes@.subrange(offset as int, offset + 32),
{
    let n = bytes.len();
    let mut r = [0u8; 32];
    let mut i: usize = 0;
    while i < 32
        invariant
            i <= 32,
            offset + 32 <= n == bytes@.len(),
            r@.len() == 32,
            forall|j: int| 0 <= j < i ==> r@[j] == bytes@[offset + j],
        decreases 32 - i,
    {
        r[i] = bytes[offset + i];
        i += 1;
    }
    proof {
        assert(r@ =~= bytes@.subrange(offset as int, offset + 32));
    }
    r
}

} // verus!
